use vstd::prelude::*;
use vstd::string::{StrSliceExecFns, StringExecFns};

use crate::cast::{chars_are, lowered_chars};

verus! {

/// Operators of the SQL subset.
#[derive(Debug, Clone, Copy, PartialEq, Eq, Structural)]
pub enum SqlOp {
    Plus,
    Minus,
    Times,
    Divide,
    Modulo,
    Gt,
    Lt,
    GtEq,
    LtEq,
    Eq,
    NotEq,
    And,
    Or,
}

/// Lexical tokens of the SQL subset.
#[derive(Debug)]
pub enum Token {
    Ident(String),
    Number(u64),
    Str(String),
    Op(SqlOp),
    LParen,
    RParen,
    Comma,
    Dot,
    Star,
    Arrow,
}

/// Expressions as written in the query.
#[derive(Debug)]
pub enum SqlExpr {
    /// A column, optionally qualified by its source.
    Column { qualifier: Option<String>, name: String },
    Number(u64),
    Str(String),
    Binary { op: SqlOp, left: Box<SqlExpr>, right: Box<SqlExpr> },
    Call { name: String, args: Vec<SqlExpr> },
    /// A field of a struct value: `base -> field`.
    Field { base: Box<SqlExpr>, field: String },
}

/// `SELECT fields FROM source [alias] [WHERE selection] [GROUP BY group_by]`.
#[derive(Debug)]
pub struct SelectStmt {
    pub fields: Vec<SqlExpr>,
    pub source: String,
    pub alias: Option<String>,
    pub selection: Option<SqlExpr>,
    pub group_by: Vec<SqlExpr>,
}

fn substring(s: &str, from: usize, to: usize) -> (r: String)
    requires
        from <= to <= s@.len(),
    ensures
        r@ == s@.subrange(from as int, to as int),
{
    String::from_str(s.substring_char(from, to))
}

/// Splits the query text into tokens; `None` on a character outside the
/// subset, an unterminated string or a number that does not fit in `u64`.
pub fn tokenize(sql: &str) -> (r: Option<Vec<Token>>) {
    let n = sql.unicode_len();
    let mut tokens: Vec<Token> = Vec::new();
    let mut i: usize = 0;
    while i < n
        invariant
            n == sql@.len(),
            0 <= i <= n,
        decreases n - i,
    {
        let c = sql.get_char(i);
        if c == ' ' || c == '\t' || c == '\n' || c == '\r' {
            i += 1;
        } else if ('a' <= c && c <= 'z') || ('A' <= c && c <= 'Z') || c == '_' {
            let start = i;
            i += 1;
            while i < n
                invariant
                    n == sql@.len(),
                    start < i <= n,
                decreases n - i,
            {
                let d = sql.get_char(i);
                if !(('a' <= d && d <= 'z') || ('A' <= d && d <= 'Z') || d == '_' || ('0' <= d && d <= '9')) {
                    break;
                }
                i += 1;
            }
            tokens.push(Token::Ident(substring(sql, start, i)));
        } else if '0' <= c && c <= '9' {
            let mut v: u64 = (c as u32 - '0' as u32) as u64;
            let first = i;
            i += 1;
            while i < n
                invariant
                    n == sql@.len(),
                    first < i <= n,
                decreases n - i,
            {
                let d = sql.get_char(i);
                if !('0' <= d && d <= '9') {
                    break;
                }
                let digit = (d as u32 - '0' as u32) as u64;
                if v > (u64::MAX - digit) / 10 {
                    return None;
                }
                v = v * 10 + digit;
                i += 1;
            }
            tokens.push(Token::Number(v));
        } else if c == '\'' {
            let start = i + 1;
            i += 1;
            while i < n && sql.get_char(i) != '\''
                invariant
                    n == sql@.len(),
                    start <= i <= n,
                decreases n - i,
            {
                i += 1;
            }
            if i >= n {
                return None;
            }
            tokens.push(Token::Str(substring(sql, start, i)));
            i += 1;
        } else {
            let next = if i + 1 < n {
                sql.get_char(i + 1)
            } else {
                ' '
            };
            let (tok, width): (Token, usize) = if c == '(' {
                (Token::LParen, 1)
            } else if c == ')' {
                (Token::RParen, 1)
            } else if c == ',' {
                (Token::Comma, 1)
            } else if c == '.' {
                (Token::Dot, 1)
            } else if c == '*' {
                (Token::Star, 1)
            } else if c == '+' {
                (Token::Op(SqlOp::Plus), 1)
            } else if c == '-' && next == '>' {
                (Token::Arrow, 2)
            } else if c == '-' {
                (Token::Op(SqlOp::Minus), 1)
            } else if c == '/' {
                (Token::Op(SqlOp::Divide), 1)
            } else if c == '%' {
                (Token::Op(SqlOp::Modulo), 1)
            } else if c == '>' && next == '=' {
                (Token::Op(SqlOp::GtEq), 2)
            } else if c == '>' {
                (Token::Op(SqlOp::Gt), 1)
            } else if c == '<' && next == '=' {
                (Token::Op(SqlOp::LtEq), 2)
            } else if c == '<' && next == '>' {
                (Token::Op(SqlOp::NotEq), 2)
            } else if c == '<' {
                (Token::Op(SqlOp::Lt), 1)
            } else if c == '!' && next == '=' {
                (Token::Op(SqlOp::NotEq), 2)
            } else if c == '=' {
                (Token::Op(SqlOp::Eq), 1)
            } else {
                return None;
            };
            tokens.push(tok);
            i = if i + width <= n {
                i + width
            } else {
                n
            };
        }
    }
    Some(tokens)
}

/// Whether `s` is the keyword `kw` (given in lower case), ignoring ASCII case.
pub(crate) fn is_keyword(s: &str, kw: &[char]) -> (r: bool)
    ensures
        r == (s@.map_values(|c: char| crate::cast::ascii_lower(c)) == kw@),
{
    let l = lowered_chars(s);
    chars_are(&l, kw)
}

fn ident_at(tokens: &Vec<Token>, pos: usize, kw: &[char]) -> (r: bool)
    ensures
        r ==> pos < tokens@.len(),
{
    if pos < tokens.len() {
        match &tokens[pos] {
            Token::Ident(s) => is_keyword(s.as_str(), kw),
            _ => false,
        }
    } else {
        false
    }
}

fn is_reserved(s: &str) -> (r: bool) {
    is_keyword(s, &['s', 'e', 'l', 'e', 'c', 't']) || is_keyword(s, &['f', 'r', 'o', 'm'])
        || is_keyword(s, &['w', 'h', 'e', 'r', 'e']) || is_keyword(s, &['g', 'r', 'o', 'u', 'p'])
        || is_keyword(s, &['b', 'y']) || is_keyword(s, &['a', 'n', 'd']) || is_keyword(s, &['o', 'r'])
        || is_keyword(s, &['a', 's'])
}

/// Binding strength of a binary operator token: `OR` 1, `AND` 2,
/// comparisons 3, `+ -` 4, `* / %` 5.
fn binary_op_at(tokens: &Vec<Token>, pos: usize) -> (r: Option<(SqlOp, u32)>)
    ensures
        r matches Some((_, p)) ==> 1 <= p <= 5,
{
    if pos >= tokens.len() {
        return None;
    }
    match &tokens[pos] {
        Token::Op(op) => {
            let p: u32 = match op {
                SqlOp::Plus | SqlOp::Minus => 4,
                SqlOp::Times | SqlOp::Divide | SqlOp::Modulo => 5,
                SqlOp::And => 2,
                SqlOp::Or => 1,
                _ => 3,
            };
            Some((*op, p))
        },
        Token::Star => Some((SqlOp::Times, 5)),
        Token::Ident(s) => {
            if is_keyword(s.as_str(), &['a', 'n', 'd']) {
                Some((SqlOp::And, 2))
            } else if is_keyword(s.as_str(), &['o', 'r']) {
                Some((SqlOp::Or, 1))
            } else {
                None
            }
        },
        _ => None,
    }
}

/// Parses an expression whose operators bind at least as tightly as
/// `min_prec`, starting at `pos`; gives the expression and the position
/// after it.
fn parse_expr(tokens: &Vec<Token>, pos: usize, min_prec: u32) -> (r: Result<(SqlExpr, usize), String>)
    requires
        pos <= tokens@.len(),
        1 <= min_prec <= 6,
    ensures
        r matches Ok((_, next)) ==> pos < next <= tokens@.len(),
    decreases tokens@.len() - pos, 7 - min_prec, 1nat,
{
    let (mut left, mut p) = match parse_primary(tokens, pos) {
        Ok(x) => x,
        Err(e) => {
            return Err(e);
        },
    };
    while p < tokens.len()
        invariant
            pos < p <= tokens@.len(),
            1 <= min_prec <= 6,
        decreases tokens@.len() - p,
    {
        match binary_op_at(tokens, p) {
            Some((op, prec)) => {
                if prec < min_prec {
                    break;
                }
                let right = match parse_expr(tokens, p + 1, prec + 1) {
                    Ok(x) => x,
                    Err(e) => {
                        return Err(e);
                    },
                };
                left = SqlExpr::Binary { op, left: Box::new(left), right: Box::new(right.0) };
                p = right.1;
            },
            None => {
                break;
            },
        }
    }
    Ok((left, p))
}

fn parse_primary(tokens: &Vec<Token>, pos: usize) -> (r: Result<(SqlExpr, usize), String>)
    requires
        pos <= tokens@.len(),
    ensures
        r matches Ok((_, next)) ==> pos < next <= tokens@.len(),
    decreases tokens@.len() - pos, 0nat, 0nat,
{
    if pos >= tokens.len() {
        return Err("unexpected end of query".to_string());
    }
    let (base, mut p): (SqlExpr, usize) = match &tokens[pos] {
        Token::Number(v) => (SqlExpr::Number(*v), pos + 1),
        Token::Str(s) => (SqlExpr::Str(s.clone()), pos + 1),
        Token::LParen => {
            let (inner, q) = match parse_expr(tokens, pos + 1, 1) {
                Ok(x) => x,
                Err(e) => {
                    return Err(e);
                },
            };
            if q < tokens.len() && matches!(tokens[q], Token::RParen) {
                (inner, q + 1)
            } else {
                return Err("expected )".to_string());
            }
        },
        Token::Ident(name) => {
            if is_reserved(name.as_str()) {
                return Err("unexpected keyword".to_string());
            }
            if tokens.len() - pos > 1 && matches!(tokens[pos + 1], Token::LParen) {
                let mut args: Vec<SqlExpr> = Vec::new();
                let mut q = pos + 2;
                if q < tokens.len() && matches!(tokens[q], Token::RParen) {
                    (SqlExpr::Call { name: name.clone(), args }, q + 1)
                } else {
                    loop
                        invariant
                            pos + 2 <= q <= tokens@.len(),
                        decreases tokens@.len() - q,
                    {
                        let (arg, after) = match parse_expr(tokens, q, 1) {
                            Ok(x) => x,
                            Err(e) => {
                                return Err(e);
                            },
                        };
                        args.push(arg);
                        if after < tokens.len() && matches!(tokens[after], Token::Comma) {
                            q = after + 1;
                        } else if after < tokens.len() && matches!(tokens[after], Token::RParen) {
                            q = after + 1;
                            break;
                        } else {
                            return Err("expected , or )".to_string());
                        }
                    }
                    (SqlExpr::Call { name: name.clone(), args }, q)
                }
            } else if tokens.len() - pos > 2 && matches!(tokens[pos + 1], Token::Dot) {
                match &tokens[pos + 2] {
                    Token::Ident(col) => (
                        SqlExpr::Column { qualifier: Some(name.clone()), name: col.clone() },
                        pos + 3,
                    ),
                    _ => {
                        return Err("expected a column name".to_string());
                    },
                }
            } else {
                (SqlExpr::Column { qualifier: None, name: name.clone() }, pos + 1)
            }
        },
        _ => {
            return Err("unexpected token".to_string());
        },
    };
    let mut e = base;
    while tokens.len() - p > 1 && matches!(tokens[p], Token::Arrow)
        invariant
            pos < p <= tokens@.len(),
        decreases tokens@.len() - p,
    {
        match &tokens[p + 1] {
            Token::Ident(f) => {
                e = SqlExpr::Field { base: Box::new(e), field: f.clone() };
                p = p + 2;
            },
            _ => {
                return Err("expected a field name after ->".to_string());
            },
        }
    }
    Ok((e, p))
}

/// Parses a comma-separated list of expressions at `pos`.
fn parse_list(tokens: &Vec<Token>, pos: usize) -> (r: Result<(Vec<SqlExpr>, usize), String>)
    requires
        pos <= tokens@.len(),
    ensures
        r matches Ok((_, next)) ==> pos < next <= tokens@.len(),
{
    let mut out: Vec<SqlExpr> = Vec::new();
    let mut p = pos;
    loop
        invariant
            pos <= p <= tokens@.len(),
            out@.len() > 0 ==> pos < p,
        decreases tokens@.len() - p,
    {
        let (e, q) = match parse_expr(tokens, p, 1) {
            Ok(x) => x,
            Err(e) => {
                return Err(e);
            },
        };
        out.push(e);
        if q < tokens.len() && matches!(tokens[q], Token::Comma) {
            p = q + 1;
        } else {
            return Ok((out, q));
        }
    }
}

/// Parses `SELECT list FROM source [alias] [WHERE expr] [GROUP BY list]`.
pub fn parse_sql(sql: &str) -> (r: Result<SelectStmt, String>) {
    let tokens = match tokenize(sql) {
        Some(t) => t,
        None => {
            return Err("invalid token".to_string());
        },
    };
    let _len = tokens.len();
    if !ident_at(&tokens, 0, &['s', 'e', 'l', 'e', 'c', 't']) {
        return Err("expected SELECT".to_string());
    }
    let (fields, mut p) = match parse_list(&tokens, 1) {
        Ok(x) => x,
        Err(e) => {
            return Err(e);
        },
    };
    if !ident_at(&tokens, p, &['f', 'r', 'o', 'm']) {
        return Err("expected FROM".to_string());
    }
    p = p + 1;
    if p >= tokens.len() {
        return Err("expected a source name".to_string());
    }
    let source = match &tokens[p] {
        Token::Ident(s) => s.clone(),
        _ => {
            return Err("expected a source name".to_string());
        },
    };
    p = p + 1;
    let mut alias: Option<String> = None;
    if p < tokens.len() {
        if let Token::Ident(a) = &tokens[p] {
            if !is_reserved(a.as_str()) {
                alias = Some(a.clone());
                p = p + 1;
            }
        }
    }
    let mut selection: Option<SqlExpr> = None;
    if ident_at(&tokens, p, &['w', 'h', 'e', 'r', 'e']) {
        let (e, q) = match parse_expr(&tokens, p + 1, 1) {
            Ok(x) => x,
            Err(e) => {
                return Err(e);
            },
        };
        selection = Some(e);
        p = q;
    }
    let mut group_by: Vec<SqlExpr> = Vec::new();
    if ident_at(&tokens, p, &['g', 'r', 'o', 'u', 'p']) {
        if p + 1 > tokens.len() || !ident_at(&tokens, p + 1, &['b', 'y']) {
            return Err("expected BY".to_string());
        }
        let (list, q) = match parse_list(&tokens, p + 2) {
            Ok(x) => x,
            Err(e) => {
                return Err(e);
            },
        };
        group_by = list;
        p = q;
    }
    if p != tokens.len() {
        return Err("unexpected input after the query".to_string());
    }
    Ok(SelectStmt { fields, source, alias, selection, group_by })
}

} // verus!
