//! Expressions: precedence parsing into a tree, and the tree in postfix order.
use vstd::prelude::*;

use crate::ast::{Expression, Term};
use crate::diagnostic::{Diagnostic, DiagnosticKind, Severity};
use crate::lexer::{digit_val, digits_value, is_digit};
use crate::span::Span;
use crate::text::{starts_with_char, text_is};
use crate::token::Token;

verus! {

/// A binary operator.
#[derive(Debug, Clone, Copy, PartialEq, Eq, Structural)]
pub enum BinOp {
    Add,
    Sub,
    Mul,
    Div,
    Concat,
    Less,
    More,
    LessEq,
    MoreEq,
    Eq,
    NEq,
}

/// An expression tree.
#[derive(Debug, PartialEq)]
pub enum Expr {
    Leaf(Term),
    Bin(BinOp, Box<Expr>, Box<Expr>),
}

/// The operator that `t` spells.
pub open spec fn binop_of(t: Seq<char>) -> Option<BinOp> {
    if t == "*"@ {
        Some(BinOp::Mul)
    } else if t == "/"@ {
        Some(BinOp::Div)
    } else if t == "+"@ {
        Some(BinOp::Add)
    } else if t == "-"@ {
        Some(BinOp::Sub)
    } else if t == "."@ {
        Some(BinOp::Concat)
    } else if t == "<"@ {
        Some(BinOp::Less)
    } else if t == ">"@ {
        Some(BinOp::More)
    } else if t == "<="@ {
        Some(BinOp::LessEq)
    } else if t == ">="@ {
        Some(BinOp::MoreEq)
    } else if t == "==="@ {
        Some(BinOp::Eq)
    } else if t == "!=="@ {
        Some(BinOp::NEq)
    } else {
        None
    }
}

/// How tightly an operator binds: 1 for products, up to 4 for equality.
pub open spec fn level_of(op: BinOp) -> nat {
    match op {
        BinOp::Mul | BinOp::Div => 1,
        BinOp::Add | BinOp::Sub | BinOp::Concat => 2,
        BinOp::Less | BinOp::More | BinOp::LessEq | BinOp::MoreEq => 3,
        BinOp::Eq | BinOp::NEq => 4,
    }
}

/// The loosest level, that of a whole expression.
pub open spec fn top_level() -> nat {
    4
}

/// The postfix element of an operator.
pub open spec fn op_element(op: BinOp) -> Expression {
    match op {
        BinOp::Add => Expression::Add,
        BinOp::Sub => Expression::Subtract,
        BinOp::Mul => Expression::Multiply,
        BinOp::Div => Expression::Divide,
        BinOp::Concat => Expression::Concat,
        BinOp::Less => Expression::Smaller,
        BinOp::More => Expression::Greater,
        BinOp::LessEq => Expression::SmallerEquals,
        BinOp::MoreEq => Expression::GreaterEquals,
        BinOp::Eq => Expression::Equals,
        BinOp::NEq => Expression::NotEquals,
    }
}

/// An expression in postfix order: both operands, then the operator.
pub open spec fn postfix(e: Expr) -> Seq<Expression>
    decreases e,
{
    match e {
        Expr::Leaf(t) => seq![Expression::Term(t)],
        Expr::Bin(op, l, r) => postfix(*l) + postfix(*r) + seq![op_element(op)],
    }
}

/// The span just past the last token, where the end of input is reported.
pub open spec fn end_span(toks: Seq<(Token, Span)>) -> Span {
    if toks.len() == 0 {
        Span { start: 0, end: 0 }
    } else {
        Span { start: toks.last().1.end, end: toks.last().1.end }
    }
}

/// The diagnostic for the token at `p` (or the end of input), where
/// `expected` or something else was wanted.
pub open spec fn unexpected(toks: Seq<(Token, Span)>, p: int, expected: Option<Token>) -> Diagnostic {
    if 0 <= p < toks.len() {
        Diagnostic {
            span: toks[p].1,
            severity: Severity::Error,
            kind: DiagnosticKind::Unexpected { found: Some(toks[p].0), expected },
        }
    } else {
        Diagnostic {
            span: end_span(toks),
            severity: Severity::Error,
            kind: DiagnosticKind::Unexpected { found: None, expected },
        }
    }
}

/// Whether `t` is a decimal integer that fits in an `i64`.
pub open spec fn valid_int(t: Seq<char>) -> bool {
    &&& t.len() > 0
    &&& forall|k: int| 0 <= k < t.len() ==> is_digit(#[trigger] t[k])
    &&& digits_value(t, 0, t.len(), 10) <= i64::MAX
}

/// The number that a numeric literal spells: a float when it holds `e`, `E`
/// or `.`, else an integer, which must fit in an `i64`.
pub open spec fn number_term(t: String, span: Span) -> Result<Term, Diagnostic> {
    if t@.contains('e') || t@.contains('E') || t@.contains('.') {
        Ok(Term::Float(t))
    } else if valid_int(t@) {
        Ok(Term::Int(digits_value(t@, 0, t@.len(), 10) as i64))
    } else {
        Err(Diagnostic { span, severity: Severity::Error, kind: DiagnosticKind::InvalidInt })
    }
}

/// The leaf that the token at `p` stands for.
pub open spec fn term_at(toks: Seq<(Token, Span)>, p: int) -> Result<Term, Diagnostic> {
    match toks[p].0 {
        Token::Null => Ok(Term::Null),
        Token::Bool(b) => Ok(Term::Bool(b)),
        Token::Str(s) => Ok(Term::String(s)),
        Token::Ident(i) => if i@.len() > 0 && i@[0] == '$' {
            Ok(Term::Var(i))
        } else {
            Err(unexpected(toks, p, None))
        },
        Token::Num(n) => number_term(n, toks[p].1),
        _ => Err(unexpected(toks, p, None)),
    }
}

/// The operator of `level` at `p`, if one stands there.
pub open spec fn op_at(toks: Seq<(Token, Span)>, p: int, level: nat) -> Option<BinOp> {
    if 0 <= p < toks.len() {
        match toks[p].0 {
            Token::Op(t) => match binop_of(t@) {
                Some(op) => if level_of(op) == level {
                    Some(op)
                } else {
                    None
                },
                None => None,
            },
            _ => None,
        }
    } else {
        None
    }
}

/// Parses an expression of `level` at `p`: the tree and how many tokens it
/// takes. Level 0 is an atom: a leaf, or a whole expression in parentheses.
pub open spec fn parse_level(toks: Seq<(Token, Span)>, p: int, level: nat) -> Result<(Expr, nat), Diagnostic>
    decreases toks.len() - p, level, 1int,
{
    if p < 0 || p >= toks.len() {
        Err(unexpected(toks, p, None))
    } else if level == 0 {
        if toks[p].0 == Token::Control('(') {
            match parse_level(toks, p + 1, top_level()) {
                Ok((e, n)) => {
                    let q = p + 1 + n;
                    if 0 <= q < toks.len() && toks[q].0 == Token::Control(')') {
                        Ok((e, n + 2))
                    } else {
                        Err(unexpected(toks, q, Some(Token::Control(')'))))
                    }
                },
                Err(d) => Err(d),
            }
        } else {
            match term_at(toks, p) {
                Ok(t) => Ok((Expr::Leaf(t), 1)),
                Err(d) => Err(d),
            }
        }
    } else {
        match parse_level(toks, p, (level - 1) as nat) {
            Ok((lhs, n)) => if p + n >= toks.len() {
                Ok((lhs, n))
            } else {
                match fold_level(toks, p + n, level, lhs) {
                    Ok((e, m)) => Ok((e, n + m)),
                    Err(d) => Err(d),
                }
            },
            Err(d) => Err(d),
        }
    }
}

/// After `lhs`, reads pairs of an operator of `level` and an operand of the
/// level below, folding from the left: the tree and how many tokens it takes.
pub open spec fn fold_level(toks: Seq<(Token, Span)>, q: int, level: nat, lhs: Expr) -> Result<(Expr, nat), Diagnostic>
    decreases toks.len() - q, level, 0int,
{
    if level == 0 {
        Ok((lhs, 0))
    } else {
        match op_at(toks, q, level) {
            None => Ok((lhs, 0)),
            Some(op) => match parse_level(toks, q + 1, (level - 1) as nat) {
                Ok((rhs, n)) => {
                    let e = Expr::Bin(op, Box::new(lhs), Box::new(rhs));
                    if q + 1 + n >= toks.len() {
                        Ok((e, 1 + n))
                    } else {
                        match fold_level(toks, q + 1 + n, level, e) {
                            Ok((e2, m)) => Ok((e2, 1 + n + m)),
                            Err(d) => Err(d),
                        }
                    }
                },
                Err(d) => Err(d),
            },
        }
    }
}

proof fn lemma_digits_nonneg(t: Seq<char>, m: nat)
    requires
        m <= t.len(),
        forall|k: int| 0 <= k < t.len() ==> is_digit(#[trigger] t[k]),
    ensures
        digits_value(t, 0, m, 10) >= 0,
    decreases m,
{
    if m > 0 {
        lemma_digits_nonneg(t, (m - 1) as nat);
        assert(is_digit(t[m - 1]));
    }
}

proof fn lemma_digits_monotone(t: Seq<char>, k: nat, m: nat)
    requires
        k <= m <= t.len(),
        forall|j: int| 0 <= j < t.len() ==> is_digit(#[trigger] t[j]),
    ensures
        digits_value(t, 0, k, 10) <= digits_value(t, 0, m, 10),
    decreases m - k,
{
    if k < m {
        lemma_digits_monotone(t, k, (m - 1) as nat);
        lemma_digits_nonneg(t, (m - 1) as nat);
        assert(is_digit(t[m - 1]));
    }
}

/// Reads a decimal integer that fits in an `i64`.
fn parse_int(t: &str) -> (r: Option<i64>)
    ensures
        r == (if valid_int(t@) {
            Some(digits_value(t@, 0, t@.len(), 10) as i64)
        } else {
            None::<i64>
        }),
{
    let n = t.unicode_len();
    if n == 0 {
        return None;
    }
    let mut v: i64 = 0;
    let mut k: usize = 0;
    while k < n
        invariant
            k <= n,
            n == t@.len(),
            forall|j: int| 0 <= j < k ==> is_digit(#[trigger] t@[j]),
            v as int == digits_value(t@, 0, k as nat, 10),
            v >= 0,
        decreases n - k,
    {
        let c = t.get_char(k);
        if !('0' <= c && c <= '9') {
            assert(!is_digit(t@[k as int]));
            return None;
        }
        let d = (c as u32 - '0' as u32) as i64;
        assert(d as int == digit_val(c));
        if v > (i64::MAX - d) / 10 {
            proof {
                assert(v * 10 + d > i64::MAX) by (nonlinear_arith)
                    requires
                        v > (i64::MAX - d) / 10,
                        0 <= d <= 9,
                ;
                assert(digits_value(t@, 0, (k + 1) as nat, 10) == v * 10 + d);
                if forall|j: int| 0 <= j < t@.len() ==> is_digit(#[trigger] t@[j]) {
                    lemma_digits_monotone(t@, (k + 1) as nat, n as nat);
                }
            }
            return None;
        }
        assert(v * 10 + d <= i64::MAX) by (nonlinear_arith)
            requires
                v <= (i64::MAX - d) / 10,
                0 <= d <= 9,
                v >= 0,
        ;
        v = v * 10 + d;
        k = k + 1;
    }
    Some(v)
}

fn has_char(t: &str, c: char) -> (r: bool)
    ensures
        r == t@.contains(c),
{
    let n = t.unicode_len();
    let mut k: usize = 0;
    while k < n
        invariant
            k <= n,
            n == t@.len(),
            forall|j: int| 0 <= j < k ==> t@[j] != c,
        decreases n - k,
    {
        if t.get_char(k) == c {
            assert(t@[k as int] == c);
            return true;
        }
        k = k + 1;
    }
    false
}

fn number_term_of(t: &String, span: Span) -> (r: Result<Term, Diagnostic>)
    ensures
        r == number_term(*t, span),
{
    let s = t.as_str();
    if has_char(s, 'e') || has_char(s, 'E') || has_char(s, '.') {
        Ok(Term::Float(t.clone()))
    } else {
        match parse_int(s) {
            Some(v) => Ok(Term::Int(v)),
            None => Err(Diagnostic { span, severity: Severity::Error, kind: DiagnosticKind::InvalidInt }),
        }
    }
}

fn binop_from(t: &String) -> (r: Option<BinOp>)
    ensures
        r == binop_of(t@),
{
    let s = t.as_str();
    if text_is(s, "*") {
        Some(BinOp::Mul)
    } else if text_is(s, "/") {
        Some(BinOp::Div)
    } else if text_is(s, "+") {
        Some(BinOp::Add)
    } else if text_is(s, "-") {
        Some(BinOp::Sub)
    } else if text_is(s, ".") {
        Some(BinOp::Concat)
    } else if text_is(s, "<") {
        Some(BinOp::Less)
    } else if text_is(s, ">") {
        Some(BinOp::More)
    } else if text_is(s, "<=") {
        Some(BinOp::LessEq)
    } else if text_is(s, ">=") {
        Some(BinOp::MoreEq)
    } else if text_is(s, "===") {
        Some(BinOp::Eq)
    } else if text_is(s, "!==") {
        Some(BinOp::NEq)
    } else {
        None
    }
}

fn level_from(op: BinOp) -> (r: usize)
    ensures
        r == level_of(op),
{
    match op {
        BinOp::Mul | BinOp::Div => 1,
        BinOp::Add | BinOp::Sub | BinOp::Concat => 2,
        BinOp::Less | BinOp::More | BinOp::LessEq | BinOp::MoreEq => 3,
        BinOp::Eq | BinOp::NEq => 4,
    }
}

fn op_from(toks: &Vec<(Token, Span)>, p: usize, level: usize) -> (r: Option<BinOp>)
    ensures
        r == op_at(toks@, p as int, level as nat),
{
    if p < toks.len() {
        match &toks[p].0 {
            Token::Op(t) => match binop_from(t) {
                Some(op) => if level_from(op) == level {
                    Some(op)
                } else {
                    None
                },
                None => None,
            },
            _ => None,
        }
    } else {
        None
    }
}

/// The diagnostic for the token at `p`, or for the end of input.
pub(crate) fn unexpected_at(toks: &Vec<(Token, Span)>, p: usize, expected: Option<Token>) -> (r: Diagnostic)
    ensures
        r == unexpected(toks@, p as int, expected),
{
    if p < toks.len() {
        Diagnostic {
            span: toks[p].1,
            severity: Severity::Error,
            kind: DiagnosticKind::Unexpected { found: Some(toks[p].0.copy()), expected },
        }
    } else {
        let span = if toks.len() == 0 {
            Span { start: 0, end: 0 }
        } else {
            let e = toks[toks.len() - 1].1.end;
            Span { start: e, end: e }
        };
        Diagnostic {
            span,
            severity: Severity::Error,
            kind: DiagnosticKind::Unexpected { found: None, expected },
        }
    }
}

fn term_from(toks: &Vec<(Token, Span)>, p: usize) -> (r: Result<Term, Diagnostic>)
    requires
        p < toks.len(),
    ensures
        r == term_at(toks@, p as int),
{
    match &toks[p].0 {
        Token::Null => Ok(Term::Null),
        Token::Bool(b) => Ok(Term::Bool(*b)),
        Token::Str(s) => Ok(Term::String(s.clone())),
        Token::Ident(i) => if starts_with_char(i.as_str(), '$') {
            Ok(Term::Var(i.clone()))
        } else {
            Err(unexpected_at(toks, p, None))
        },
        Token::Num(n) => number_term_of(n, toks[p].1),
        _ => Err(unexpected_at(toks, p, None)),
    }
}

/// The meaning of an executable parse result against the specification.
pub open spec fn parsed_as<T>(r: Result<(T, usize), Diagnostic>, s: Result<(T, nat), Diagnostic>, p: int, len: int) -> bool {
    match r {
        Ok((e, n)) => s == Ok::<(T, nat), Diagnostic>((e, n as nat)) && p + n <= len,
        Err(d) => s == Err::<(T, nat), Diagnostic>(d),
    }
}

fn parse_level_at(toks: &Vec<(Token, Span)>, p: usize, level: usize) -> (r: Result<(Expr, usize), Diagnostic>)
    requires
        level <= 4,
    ensures
        parsed_as(r, parse_level(toks@, p as int, level as nat), p as int, toks.len() as int),
    decreases toks.len() - p, level, 1int,
{
    if p >= toks.len() {
        return Err(unexpected_at(toks, p, None));
    }
    if level == 0 {
        if let Token::Control(c) = &toks[p].0 {
            if *c == '(' {
                return match parse_level_at(toks, p + 1, 4) {
                    Ok((e, n)) => {
                        let q = p + 1 + n;
                        let close = q < toks.len() && match &toks[q].0 {
                            Token::Control(d) => *d == ')',
                            _ => false,
                        };
                        if close {
                            Ok((e, n + 2))
                        } else {
                            Err(unexpected_at(toks, q, Some(Token::Control(')'))))
                        }
                    },
                    Err(d) => Err(d),
                };
            }
        }
        match term_from(toks, p) {
            Ok(t) => Ok((Expr::Leaf(t), 1)),
            Err(d) => Err(d),
        }
    } else {
        match parse_level_at(toks, p, level - 1) {
            Ok((lhs, n)) => if p + n >= toks.len() {
                Ok((lhs, n))
            } else {
                match fold_level_at(toks, p + n, level, lhs) {
                    Ok((e, m)) => Ok((e, n + m)),
                    Err(d) => Err(d),
                }
            },
            Err(d) => Err(d),
        }
    }
}

/// The result of a fold that started `k` tokens earlier.
pub open spec fn shifted(r: Result<(Expr, nat), Diagnostic>, k: nat) -> Result<(Expr, nat), Diagnostic> {
    match r {
        Ok((e, m)) => Ok((e, m + k)),
        Err(d) => Err(d),
    }
}

fn fold_level_at(toks: &Vec<(Token, Span)>, q0: usize, level: usize, lhs0: Expr) -> (r: Result<(Expr, usize), Diagnostic>)
    requires
        1 <= level <= 4,
        q0 < toks.len(),
    ensures
        parsed_as(r, fold_level(toks@, q0 as int, level as nat, lhs0), q0 as int, toks.len() as int),
    decreases toks.len() - q0, level, 0int,
{
    let ghost spec_r = fold_level(toks@, q0 as int, level as nat, lhs0);
    let mut lhs = lhs0;
    let mut q = q0;
    loop
        invariant
            1 <= level <= 4,
            q0 <= q < toks.len(),
            spec_r == fold_level(toks@, q0 as int, level as nat, lhs0),
            spec_r == shifted(fold_level(toks@, q as int, level as nat, lhs), (q - q0) as nat),
        decreases toks.len() - q,
    {
        match op_from(toks, q, level) {
            None => {
                return Ok((lhs, q - q0));
            },
            Some(op) => {
                match parse_level_at(toks, q + 1, level - 1) {
                    Ok((rhs, n)) => {
                        let e = Expr::Bin(op, Box::new(lhs), Box::new(rhs));
                        if q + 1 + n >= toks.len() {
                            return Ok((e, q - q0 + 1 + n));
                        }
                        lhs = e;
                        q = q + 1 + n;
                    },
                    Err(d) => {
                        return Err(d);
                    },
                }
            },
        }
    }
}

/// Parses an expression that starts at token `pos`: the tree and the number
/// of tokens it takes.
pub fn expression(toks: &Vec<(Token, Span)>, pos: usize) -> (r: Result<(Expr, usize), Diagnostic>)
    ensures
        parsed_as(r, parse_level(toks@, pos as int, top_level()), pos as int, toks.len() as int),
{
    parse_level_at(toks, pos, 4)
}

fn op_expression(op: BinOp) -> (r: Expression)
    ensures
        r == op_element(op),
{
    match op {
        BinOp::Add => Expression::Add,
        BinOp::Sub => Expression::Subtract,
        BinOp::Mul => Expression::Multiply,
        BinOp::Div => Expression::Divide,
        BinOp::Concat => Expression::Concat,
        BinOp::Less => Expression::Smaller,
        BinOp::More => Expression::Greater,
        BinOp::LessEq => Expression::SmallerEquals,
        BinOp::MoreEq => Expression::GreaterEquals,
        BinOp::Eq => Expression::Equals,
        BinOp::NEq => Expression::NotEquals,
    }
}

fn emit_postfix(e: Expr, out: &mut Vec<Expression>)
    ensures
        final(out)@ == old(out)@ + postfix(e),
    decreases e,
{
    let ghost e0 = e;
    match e {
        Expr::Leaf(t) => {
            out.push(Expression::Term(t));
            assert(final(out)@ =~= old(out)@ + postfix(e0));
        },
        Expr::Bin(op, l, r) => {
            emit_postfix(*l, out);
            emit_postfix(*r, out);
            out.push(op_expression(op));
            assert(out@ =~= old(out)@ + postfix(e0));
        },
    }
}

/// Flattens an expression tree into postfix order, for evaluation on a
/// single operand stack: each operator comes after both of its operands.
pub fn expression_to_reverse_polish(expr: Expr) -> (r: Vec<Expression>)
    ensures
        r@ == postfix(expr),
{
    let mut out: Vec<Expression> = Vec::new();
    emit_postfix(expr, &mut out);
    assert(out@ =~= postfix(expr));
    out
}

} // verus!
