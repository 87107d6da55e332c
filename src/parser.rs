//! Statements, blocks and programs, with recovery at statement granularity.
use vstd::prelude::*;

use crate::ast::{
    block_view, body_view, main_of, main_view, Body, BodyView, Expression, If, MainBody, MainView,
    Param, RVal, RValView, While,
};
use crate::diagnostic::Diagnostic;
use crate::expression::{
    expression, expression_to_reverse_polish, parse_level, postfix, top_level,
    unexpected, unexpected_at,
};
use crate::ident::{func_ident, func_ident_at, type_at, type_parser, var_ident, var_ident_at};
use crate::span::{Span, WithSpan};
use crate::text::{starts_with_char, text_is};
use crate::token::Token;

verus! {

/// Whether the token at `p` is the control character `c`.
pub open spec fn is_ctrl(toks: Seq<(Token, Span)>, p: int, c: char) -> bool {
    0 <= p < toks.len() && toks[p].0 == Token::Control(c)
}

/// Whether a function call starts at `p`: a name without `$`, then `(`.
pub open spec fn is_call_start(toks: Seq<(Token, Span)>, p: int) -> bool {
    &&& 0 <= p < toks.len()
    &&& toks[p].0 matches Token::Ident(name) && !(name@.len() > 0 && name@[0] == '$')
    &&& is_ctrl(toks, p + 1, '(')
}

/// The call arguments from `q` on, after `acc`: all arguments in postfix
/// form and the index of the closing `)`. A trailing comma is allowed.
pub open spec fn args_at(toks: Seq<(Token, Span)>, q: int, acc: Seq<Seq<Expression>>) -> Result<(Seq<Seq<Expression>>, int), Diagnostic>
    decreases toks.len() - q,
{
    if q < 0 || q >= toks.len() {
        Err(unexpected(toks, q, Some(Token::Control(')'))))
    } else if toks[q].0 == Token::Control(')') {
        Ok((acc, q))
    } else {
        match parse_level(toks, q, top_level()) {
            Err(d) => Err(d),
            Ok((e, n)) => {
                let r = q + n;
                let acc2 = acc.push(postfix(e));
                if is_ctrl(toks, r, ',') {
                    args_at(toks, r + 1, acc2)
                } else if is_ctrl(toks, r, ')') {
                    Ok((acc2, r))
                } else {
                    Err(unexpected(toks, r, Some(Token::Control(')'))))
                }
            },
        }
    }
}

/// The function call at `p` and how many tokens it takes.
pub open spec fn call_at(toks: Seq<(Token, Span)>, p: int) -> Result<(RValView, nat), Diagnostic> {
    match func_ident_at(toks, p) {
        Err(d) => Err(d),
        Ok(name) => if !is_ctrl(toks, p + 1, '(') {
            Err(unexpected(toks, p + 1, Some(Token::Control('('))))
        } else {
            match args_at(toks, p + 2, seq![]) {
                Ok((args, close)) => Ok(
                    (RValView::FunctionCall { ident: name, args }, (close - p + 1) as nat),
                ),
                Err(d) => Err(d),
            }
        },
    }
}

/// The right-hand value at `p` and how many tokens it takes: a function
/// call where a name and `(` stand, else an expression in postfix form.
pub open spec fn rval_at(toks: Seq<(Token, Span)>, p: int) -> Result<(RValView, nat), Diagnostic> {
    if is_call_start(toks, p) {
        call_at(toks, p)
    } else {
        match parse_level(toks, p, top_level()) {
            Ok((e, n)) => Ok((RValView::Expr { expr: postfix(e) }, n)),
            Err(d) => Err(d),
        }
    }
}

/// `( rval )` at `p`: the value and the index of the `)`.
pub open spec fn cond_at(toks: Seq<(Token, Span)>, p: int) -> Result<(RValView, int), Diagnostic> {
    if !is_ctrl(toks, p, '(') {
        Err(unexpected(toks, p, Some(Token::Control('('))))
    } else {
        match rval_at(toks, p + 1) {
            Err(d) => Err(d),
            Ok((r, n)) => if is_ctrl(toks, p + 1 + n, ')') {
                Ok((r, p + 1 + n))
            } else {
                Err(unexpected(toks, p + 1 + n, Some(Token::Control(')'))))
            },
        }
    }
}

/// `rval ;` at `p`: the value and the index of the `;`.
pub open spec fn terminated_at(toks: Seq<(Token, Span)>, p: int) -> Result<(RValView, int), Diagnostic> {
    match rval_at(toks, p) {
        Err(d) => Err(d),
        Ok((r, n)) => if is_ctrl(toks, p + n, ';') {
            Ok((r, p + n))
        } else {
            Err(unexpected(toks, p + n, Some(Token::Control(';'))))
        },
    }
}

/// Whether an assignment starts at `p`: a name with `$`, then `=`.
pub open spec fn is_assignment_start(toks: Seq<(Token, Span)>, p: int) -> bool {
    &&& 0 <= p && p + 1 < toks.len()
    &&& toks[p].0 matches Token::Ident(name) && name@.len() > 0 && name@[0] == '$'
    &&& toks[p + 1].0 matches Token::Op(o) && o@ == "="@
}

/// How many tokens after a statement that failed at `p` recovery skips:
/// through the next `;`, or up to a `}`, or to the end.
pub open spec fn skip_from(toks: Seq<(Token, Span)>, j: int) -> nat
    decreases toks.len() - j,
{
    if j < 0 || j >= toks.len() {
        0
    } else if toks[j].0 == Token::Control(';') {
        1
    } else if toks[j].0 == Token::Control('}') {
        0
    } else {
        1 + skip_from(toks, j + 1)
    }
}

pub open spec fn recover_extra(toks: Seq<(Token, Span)>, p: int) -> nat {
    if is_ctrl(toks, p, ';') {
        0
    } else {
        skip_from(toks, p + 1)
    }
}

/// The statement at `p`: its view, the diagnostics of statements that failed
/// inside its blocks, and how many tokens after `p` it takes.
pub open spec fn stmt_at(toks: Seq<(Token, Span)>, p: int) -> Result<(BodyView, Seq<Diagnostic>, nat), Diagnostic>
    decreases toks.len() - p, 0int,
{
    if p < 0 || p >= toks.len() {
        Err(unexpected(toks, p, None))
    } else if toks[p].0 == Token::If {
        match cond_at(toks, p + 1) {
            Err(d) => Err(d),
            Ok((r, close)) => match block_at(toks, close + 1) {
                Err(d) => Err(d),
                Ok((then_b, ds1, x1)) => {
                    let e1 = close + 1 + x1;
                    if 0 <= e1 + 1 < toks.len() && toks[e1 + 1].0 == Token::Else {
                        match block_at(toks, e1 + 2) {
                            Err(d) => Err(d),
                            Ok((else_b, ds2, x2)) => Ok(
                                (
                                    BodyView::If { expr: r, if_body: then_b, else_body: else_b },
                                    ds1 + ds2,
                                    (e1 + 2 + x2 - p) as nat,
                                ),
                            ),
                        }
                    } else {
                        Ok(
                            (
                                BodyView::If { expr: r, if_body: then_b, else_body: seq![] },
                                ds1,
                                (e1 - p) as nat,
                            ),
                        )
                    }
                },
            },
        }
    } else if toks[p].0 == Token::While {
        match cond_at(toks, p + 1) {
            Err(d) => Err(d),
            Ok((r, close)) => match block_at(toks, close + 1) {
                Err(d) => Err(d),
                Ok((b, ds, x)) => {
                    let e = close + 1 + x;
                    let span = Span { start: toks[p].1.start, end: toks[e].1.end };
                    Ok((BodyView::While { span, expr: r, body: b }, ds, (e - p) as nat))
                },
            },
        }
    } else if toks[p].0 == Token::Return {
        match terminated_at(toks, p + 1) {
            Err(d) => Err(d),
            Ok((r, semi)) => Ok((BodyView::Return(r), seq![], (semi - p) as nat)),
        }
    } else if is_assignment_start(toks, p) {
        match var_ident_at(toks, p) {
            Err(d) => Err(d),
            Ok(name) => match terminated_at(toks, p + 2) {
                Err(d) => Err(d),
                Ok((r, semi)) => Ok(
                    (BodyView::VarAssignment { ident: name, expression: r }, seq![], (semi - p) as nat),
                ),
            },
        }
    } else {
        match terminated_at(toks, p) {
            Err(d) => Err(d),
            Ok((r, semi)) => Ok((BodyView::Exp(r), seq![], (semi - p) as nat)),
        }
    }
}

/// The block `{ .. }` at `q`: its statements, their diagnostics, and how many
/// tokens after `q` it takes (its `}` stands there).
pub open spec fn block_at(toks: Seq<(Token, Span)>, q: int) -> Result<(Seq<BodyView>, Seq<Diagnostic>, nat), Diagnostic>
    decreases toks.len() - q, 2int,
{
    if !is_ctrl(toks, q, '{') {
        Err(unexpected(toks, q, Some(Token::Control('{'))))
    } else {
        match stmts_at(toks, q + 1, seq![], seq![]) {
            Ok((bs, ds, close)) => Ok((bs, ds, (close - q) as nat)),
            Err(d) => Err(d),
        }
    }
}

/// The statements from `p` up to the `}` of the block, after `acc` and
/// `ds`: all statements, all diagnostics and the index of the `}`. A
/// statement that fails stands as `Error`, its diagnostic is kept, and
/// reading goes on after it.
pub open spec fn stmts_at(toks: Seq<(Token, Span)>, p: int, acc: Seq<BodyView>, ds: Seq<Diagnostic>) -> Result<(Seq<BodyView>, Seq<Diagnostic>, int), Diagnostic>
    decreases toks.len() - p, 1int,
{
    if p < 0 || p >= toks.len() {
        Err(unexpected(toks, p, Some(Token::Control('}'))))
    } else if toks[p].0 == Token::Control('}') {
        Ok((acc, ds, p))
    } else {
        let (item, ds2, extra) = match stmt_at(toks, p) {
            Ok((b, d, x)) => (b, ds + d, x),
            Err(d) => (BodyView::Error, ds.push(d), recover_extra(toks, p)),
        };
        let next = p + 1 + extra;
        if next >= toks.len() {
            Err(unexpected(toks, next, Some(Token::Control('}'))))
        } else {
            stmts_at(toks, next, acc.push(item), ds2)
        }
    }
}

/// The parameters from `q` on, after `acc`: all of them and the index of the
/// closing `)`. Each is a type and a variable name; a trailing comma is
/// allowed.
pub open spec fn params_at(toks: Seq<(Token, Span)>, q: int, acc: Seq<Param>) -> Result<(Seq<Param>, int), Diagnostic>
    decreases toks.len() - q,
{
    if q < 0 || q >= toks.len() {
        Err(unexpected(toks, q, Some(Token::Control(')'))))
    } else if toks[q].0 == Token::Control(')') {
        Ok((acc, q))
    } else {
        match type_at(toks, q) {
            Err(d) => Err(d),
            Ok((ty, x)) => {
                let v = q + 1 + x;
                match var_ident_at(toks, v) {
                    Err(d) => Err(d),
                    Ok(name) => {
                        let acc2 = acc.push(Param { ident: WithSpan { span: toks[v].1, inner: name }, ty });
                        if is_ctrl(toks, v + 1, ',') {
                            params_at(toks, v + 2, acc2)
                        } else if is_ctrl(toks, v + 1, ')') {
                            Ok((acc2, v + 1))
                        } else {
                            Err(unexpected(toks, v + 1, Some(Token::Control(')'))))
                        }
                    },
                }
            },
        }
    }
}

/// The function definition at `p`: `function name ( params ) type { .. }`.
pub open spec fn func_def_at(toks: Seq<(Token, Span)>, p: int) -> Result<(MainView, Seq<Diagnostic>, nat), Diagnostic> {
    match func_ident_at(toks, p + 1) {
        Err(d) => Err(d),
        Ok(name) => if !is_ctrl(toks, p + 2, '(') {
            Err(unexpected(toks, p + 2, Some(Token::Control('('))))
        } else {
            match params_at(toks, p + 3, seq![]) {
                Err(d) => Err(d),
                Ok((args, close)) => match type_at(toks, close + 1) {
                    Err(d) => Err(d),
                    Ok((ty, x)) => match block_at(toks, close + 2 + x) {
                        Err(d) => Err(d),
                        Ok((body, ds, bx)) => Ok(
                            (
                                MainView::FuncDef {
                                    func_ident: name,
                                    args,
                                    return_ty: ty.inner,
                                    body,
                                },
                                ds,
                                (close + 2 + x + bx - p) as nat,
                            ),
                        ),
                    },
                },
            }
        },
    }
}

/// The top-level item at `p`: a function definition or a statement.
pub open spec fn item_at(toks: Seq<(Token, Span)>, p: int) -> Result<(MainView, Seq<Diagnostic>, nat), Diagnostic> {
    if 0 <= p < toks.len() && toks[p].0 == Token::Function {
        func_def_at(toks, p)
    } else {
        match stmt_at(toks, p) {
            Ok((b, ds, x)) => Ok((main_of(b), ds, x)),
            Err(d) => Err(d),
        }
    }
}

/// The items from `p` to the end, after `acc` and `ds`. An item that fails
/// stands as `Error`, its diagnostic is kept, and reading goes on after it.
pub open spec fn items_from(toks: Seq<(Token, Span)>, p: int, acc: Seq<MainView>, ds: Seq<Diagnostic>) -> (Seq<MainView>, Seq<Diagnostic>)
    decreases toks.len() - p,
{
    if p < 0 || p >= toks.len() {
        (acc, ds)
    } else {
        let (item, ds2, extra) = match item_at(toks, p) {
            Ok((m, d, x)) => (m, ds + d, x),
            Err(d) => (MainView::Error, ds.push(d), recover_extra(toks, p)),
        };
        let next = p + 1 + extra;
        if next >= toks.len() {
            (acc.push(item), ds2)
        } else {
            items_from(toks, next, acc.push(item), ds2)
        }
    }
}

/// The items of a whole program and the diagnostics of those that failed.
pub open spec fn program_spec(toks: Seq<(Token, Span)>) -> (Seq<MainView>, Seq<Diagnostic>) {
    items_from(toks, 0, seq![], seq![])
}

pub open spec fn arg_views(v: Seq<Vec<Expression>>) -> Seq<Seq<Expression>> {
    v.map_values(|a: Vec<Expression>| a@)
}

fn is_control(toks: &Vec<(Token, Span)>, p: usize, c: char) -> (r: bool)
    ensures
        r == is_ctrl(toks@, p as int, c),
{
    p < toks.len() && match &toks[p].0 {
        Token::Control(d) => *d == c,
        _ => false,
    }
}

fn args_list(toks: &Vec<(Token, Span)>, q0: usize) -> (r: Result<(Vec<Vec<Expression>>, usize), Diagnostic>)
    ensures
        match r {
            Ok((v, close)) => args_at(toks@, q0 as int, seq![]) == Ok::<(Seq<Seq<Expression>>, int), Diagnostic>((arg_views(v@), close as int)) && q0 <= close < toks.len(),
            Err(d) => args_at(toks@, q0 as int, seq![]) == Err::<(Seq<Seq<Expression>>, int), Diagnostic>(d),
        },
{
    let ghost spec_r = args_at(toks@, q0 as int, seq![]);
    let mut acc: Vec<Vec<Expression>> = Vec::new();
    let mut q = q0;
    assert(arg_views(acc@) =~= seq![]);
    loop
        invariant
            q0 <= q,
            spec_r == args_at(toks@, q0 as int, seq![]),
            spec_r == args_at(toks@, q as int, arg_views(acc@)),
        decreases toks.len() - q,
    {
        if q >= toks.len() {
            return Err(unexpected_at(toks, q, Some(Token::Control(')'))));
        }
        if is_control(toks, q, ')') {
            return Ok((acc, q));
        }
        match expression(toks, q) {
            Err(d) => {
                return Err(d);
            },
            Ok((e, n)) => {
                let ghost e0 = e;
                let r = q + n;
                let pf = expression_to_reverse_polish(e);
                let ghost before = arg_views(acc@);
                acc.push(pf);
                assert(arg_views(acc@) =~= before.push(postfix(e0)));
                if is_control(toks, r, ',') {
                    q = r + 1;
                } else if is_control(toks, r, ')') {
                    return Ok((acc, r));
                } else {
                    return Err(unexpected_at(toks, r, Some(Token::Control(')'))));
                }
            },
        }
    }
}

/// Reads a function call at token `pos`: a name, then `(`, arguments
/// separated by commas (a trailing one allowed), and `)`. Each argument is
/// held in postfix form. The result holds the call and the number of tokens
/// it takes.
pub fn function_call(toks: &Vec<(Token, Span)>, pos: usize) -> (r: Result<(RVal, usize), Diagnostic>)
    ensures
        match r {
            Ok((v, n)) => call_at(toks@, pos as int) == Ok::<(RValView, nat), Diagnostic>((v@, n as nat)) && pos + n <= toks.len(),
            Err(d) => call_at(toks@, pos as int) == Err::<(RValView, nat), Diagnostic>(d),
        },
{
    match func_ident(toks, pos) {
        Err(d) => Err(d),
        Ok(name) => if !(pos < toks.len() && is_control(toks, pos + 1, '(')) {
            Err(unexpected_at(toks, pos + 1, Some(Token::Control('('))))
        } else {
            match args_list(toks, pos + 2) {
                Ok((args, close)) => Ok((RVal::FunctionCall { ident: name, args }, close - pos + 1)),
                Err(d) => Err(d),
            }
        },
    }
}

fn call_starts(toks: &Vec<(Token, Span)>, p: usize) -> (r: bool)
    ensures
        r == is_call_start(toks@, p as int),
{
    p < toks.len() && match &toks[p].0 {
        Token::Ident(name) => !starts_with_char(name.as_str(), '$'),
        _ => false,
    } && is_control(toks, p + 1, '(')
}

/// Reads a right-hand value at token `pos`: a function call where a name
/// and `(` stand, else an expression, held in postfix form. The result holds
/// the value and the number of tokens it takes.
pub fn rval(toks: &Vec<(Token, Span)>, pos: usize) -> (r: Result<(RVal, usize), Diagnostic>)
    ensures
        match r {
            Ok((v, n)) => rval_at(toks@, pos as int) == Ok::<(RValView, nat), Diagnostic>((v@, n as nat)) && pos + n <= toks.len(),
            Err(d) => rval_at(toks@, pos as int) == Err::<(RValView, nat), Diagnostic>(d),
        },
{
    if call_starts(toks, pos) {
        function_call(toks, pos)
    } else {
        match expression(toks, pos) {
            Ok((e, n)) => Ok((RVal::Expr { expr: expression_to_reverse_polish(e) }, n)),
            Err(d) => Err(d),
        }
    }
}

fn cond(toks: &Vec<(Token, Span)>, p: usize) -> (r: Result<(RVal, usize), Diagnostic>)
    ensures
        match r {
            Ok((v, close)) => cond_at(toks@, p as int) == Ok::<(RValView, int), Diagnostic>((v@, close as int)) && close < toks.len(),
            Err(d) => cond_at(toks@, p as int) == Err::<(RValView, int), Diagnostic>(d),
        },
{
    if !(p < toks.len() && is_control(toks, p, '(')) {
        return Err(unexpected_at(toks, p, Some(Token::Control('('))));
    }
    match rval(toks, p + 1) {
        Err(d) => Err(d),
        Ok((v, n)) => if is_control(toks, p + 1 + n, ')') {
            Ok((v, p + 1 + n))
        } else {
            Err(unexpected_at(toks, p + 1 + n, Some(Token::Control(')'))))
        },
    }
}

fn terminated(toks: &Vec<(Token, Span)>, p: usize) -> (r: Result<(RVal, usize), Diagnostic>)
    ensures
        match r {
            Ok((v, semi)) => terminated_at(toks@, p as int) == Ok::<(RValView, int), Diagnostic>((v@, semi as int)) && semi < toks.len(),
            Err(d) => terminated_at(toks@, p as int) == Err::<(RValView, int), Diagnostic>(d),
        },
{
    match rval(toks, p) {
        Err(d) => Err(d),
        Ok((v, n)) => if is_control(toks, p + n, ';') {
            Ok((v, p + n))
        } else {
            Err(unexpected_at(toks, p + n, Some(Token::Control(';'))))
        },
    }
}

fn skip_len(toks: &Vec<(Token, Span)>, p: usize) -> (r: usize)
    requires
        p < toks.len(),
    ensures
        r == recover_extra(toks@, p as int),
        p + 1 + r <= toks.len(),
{
    if is_control(toks, p, ';') {
        return 0;
    }
    let mut j = p + 1;
    while j < toks.len() && !is_control(toks, j, ';') && !is_control(toks, j, '}')
        invariant
            p < j <= toks.len(),
            skip_from(toks@, p + 1) == (j - p - 1) + skip_from(toks@, j as int),
        decreases toks.len() - j,
    {
        j = j + 1;
    }
    if j < toks.len() && is_control(toks, j, ';') {
        j - p
    } else {
        j - p - 1
    }
}

fn assignment_starts(toks: &Vec<(Token, Span)>, p: usize) -> (r: bool)
    ensures
        r == is_assignment_start(toks@, p as int),
{
    p < toks.len() && p + 1 < toks.len() && match &toks[p].0 {
        Token::Ident(name) => starts_with_char(name.as_str(), '$'),
        _ => false,
    } && match &toks[p + 1].0 {
        Token::Op(o) => text_is(o.as_str(), "="),
        _ => false,
    }
}

/// Reads an `if` statement at token `pos`: `if ( rval ) { .. }`, then
/// optionally `else { .. }`. The result holds the statement, the diagnostics
/// of statements that failed in its blocks, and how many tokens after `pos`
/// it takes.
pub fn if_block(toks: &Vec<(Token, Span)>, pos: usize) -> (r: Result<(If, Vec<Diagnostic>, usize), Diagnostic>)
    requires
        pos < toks.len(),
        toks@[pos as int].0 == Token::If,
    ensures
        match r {
            Ok((f, ds, x)) => stmt_at(toks@, pos as int) == Ok::<(BodyView, Seq<Diagnostic>, nat), Diagnostic>((body_view(&Body::If(f)), ds@, x as nat)) && pos + x < toks.len(),
            Err(d) => stmt_at(toks@, pos as int) == Err::<(BodyView, Seq<Diagnostic>, nat), Diagnostic>(d),
        },
    decreases toks.len() - pos, 0int,
{
    match cond(toks, pos + 1) {
        Err(d) => Err(d),
        Ok((r, close)) => match parse_body(toks, close + 1) {
            Err(d) => Err(d),
            Ok((then_b, mut ds1, x1)) => {
                let e1 = close + 1 + x1;
                let has_else = e1 + 1 < toks.len() && match &toks[e1 + 1].0 {
                    Token::Else => true,
                    _ => false,
                };
                if has_else {
                    match parse_body(toks, e1 + 2) {
                        Err(d) => Err(d),
                        Ok((else_b, mut ds2, x2)) => {
                            ds1.append(&mut ds2);
                            Ok((If { expr: r, if_body: then_b, else_body: else_b }, ds1, e1 + 2 + x2 - pos))
                        },
                    }
                } else {
                    let else_b: Vec<Body> = Vec::new();
                    assert(block_view(&else_b) =~= seq![]);
                    Ok((If { expr: r, if_body: then_b, else_body: else_b }, ds1, e1 - pos))
                }
            },
        },
    }
}

/// Reads a `while` statement at token `pos`: `while ( rval ) { .. }`. The
/// result holds the statement, the diagnostics of statements that failed in
/// its block, and how many tokens after `pos` it takes.
pub fn while_block(toks: &Vec<(Token, Span)>, pos: usize) -> (r: Result<(While, Vec<Diagnostic>, usize), Diagnostic>)
    requires
        pos < toks.len(),
        toks@[pos as int].0 == Token::While,
    ensures
        match r {
            Ok((w, ds, x)) => stmt_at(toks@, pos as int) == Ok::<(BodyView, Seq<Diagnostic>, nat), Diagnostic>((body_view(&Body::While(w)), ds@, x as nat)) && pos + x < toks.len(),
            Err(d) => stmt_at(toks@, pos as int) == Err::<(BodyView, Seq<Diagnostic>, nat), Diagnostic>(d),
        },
    decreases toks.len() - pos, 0int,
{
    match cond(toks, pos + 1) {
        Err(d) => Err(d),
        Ok((r, close)) => match parse_body(toks, close + 1) {
            Err(d) => Err(d),
            Ok((b, ds, x)) => {
                let e = close + 1 + x;
                let span = Span { start: toks[pos].1.start, end: toks[e].1.end };
                Ok((While { span, expr: r, body: b }, ds, e - pos))
            },
        },
    }
}

/// Reads the statement at token `pos`. The result holds the statement, the
/// diagnostics of statements that failed in its blocks, and how many tokens
/// after `pos` it takes.
fn statement(toks: &Vec<(Token, Span)>, pos: usize) -> (r: Result<(Body, Vec<Diagnostic>, usize), Diagnostic>)
    ensures
        match r {
            Ok((b, ds, x)) => stmt_at(toks@, pos as int) == Ok::<(BodyView, Seq<Diagnostic>, nat), Diagnostic>((body_view(&b), ds@, x as nat)) && pos + x < toks.len(),
            Err(d) => stmt_at(toks@, pos as int) == Err::<(BodyView, Seq<Diagnostic>, nat), Diagnostic>(d),
        },
    decreases toks.len() - pos, 1int,
{
    if pos >= toks.len() {
        return Err(unexpected_at(toks, pos, None));
    }
    match &toks[pos].0 {
        Token::If => {
            return match if_block(toks, pos) {
                Ok((f, ds, x)) => Ok((Body::If(f), ds, x)),
                Err(d) => Err(d),
            };
        },
        Token::While => {
            return match while_block(toks, pos) {
                Ok((w, ds, x)) => Ok((Body::While(w), ds, x)),
                Err(d) => Err(d),
            };
        },
        Token::Return => {
            return match terminated(toks, pos + 1) {
                Err(d) => Err(d),
                Ok((r, semi)) => Ok((Body::Return(r), Vec::new(), semi - pos)),
            };
        },
        _ => {},
    }
    if assignment_starts(toks, pos) {
        match var_ident(toks, pos) {
            Err(d) => Err(d),
            Ok(name) => match terminated(toks, pos + 2) {
                Err(d) => Err(d),
                Ok((r, semi)) => Ok((Body::VarAssignment { ident: name, expression: r }, Vec::new(), semi - pos)),
            },
        }
    } else {
        match terminated(toks, pos) {
            Err(d) => Err(d),
            Ok((r, semi)) => Ok((Body::Exp(r), Vec::new(), semi - pos)),
        }
    }
}

/// Reads a block `{ .. }` at token `pos`. A statement that fails stands in
/// the block as `Error`, its diagnostic is kept, and reading goes on after
/// the next `;`. The result holds the statements, the diagnostics of those
/// that failed, and how many tokens after `pos` the block takes.
pub fn parse_body(toks: &Vec<(Token, Span)>, pos: usize) -> (r: Result<(Vec<Body>, Vec<Diagnostic>, usize), Diagnostic>)
    ensures
        match r {
            Ok((bs, ds, x)) => block_at(toks@, pos as int) == Ok::<(Seq<BodyView>, Seq<Diagnostic>, nat), Diagnostic>((block_view(&bs), ds@, x as nat)) && pos + x < toks.len(),
            Err(d) => block_at(toks@, pos as int) == Err::<(Seq<BodyView>, Seq<Diagnostic>, nat), Diagnostic>(d),
        },
    decreases toks.len() - pos, 3int,
{
    if !(pos < toks.len() && is_control(toks, pos, '{')) {
        return Err(unexpected_at(toks, pos, Some(Token::Control('{'))));
    }
    let ghost spec_r = stmts_at(toks@, pos + 1, seq![], seq![]);
    let mut acc: Vec<Body> = Vec::new();
    let mut ds: Vec<Diagnostic> = Vec::new();
    let mut p = pos + 1;
    assert(block_view(&acc) =~= seq![]);
    loop
        invariant
            pos < p <= toks.len(),
            is_ctrl(toks@, pos as int, '{'),
            spec_r == stmts_at(toks@, pos + 1, seq![], seq![]),
            spec_r == stmts_at(toks@, p as int, block_view(&acc), ds@),
        decreases toks.len() - p,
    {
        if p >= toks.len() {
            return Err(unexpected_at(toks, p, Some(Token::Control('}'))));
        }
        if is_control(toks, p, '}') {
            return Ok((acc, ds, p - pos));
        }
        let ghost before = block_view(&acc);
        let (item, extra) = match statement(toks, p) {
            Ok((b, mut d, x)) => {
                ds.append(&mut d);
                (b, x)
            },
            Err(d) => {
                ds.push(d);
                (Body::Error, skip_len(toks, p))
            },
        };
        let next = p + 1 + extra;
        let ghost item_view = body_view(&item);
        acc.push(item);
        assert(block_view(&acc) =~= before.push(item_view));
        if next >= toks.len() {
            return Err(unexpected_at(toks, next, Some(Token::Control('}'))));
        }
        p = next;
    }
}

fn params(toks: &Vec<(Token, Span)>, q0: usize) -> (r: Result<(Vec<Param>, usize), Diagnostic>)
    ensures
        match r {
            Ok((v, close)) => params_at(toks@, q0 as int, seq![]) == Ok::<(Seq<Param>, int), Diagnostic>((v@, close as int)) && q0 <= close < toks.len(),
            Err(d) => params_at(toks@, q0 as int, seq![]) == Err::<(Seq<Param>, int), Diagnostic>(d),
        },
{
    let ghost spec_r = params_at(toks@, q0 as int, seq![]);
    let mut acc: Vec<Param> = Vec::new();
    let mut q = q0;
    assert(acc@ =~= seq![]);
    loop
        invariant
            q0 <= q,
            spec_r == params_at(toks@, q0 as int, seq![]),
            spec_r == params_at(toks@, q as int, acc@),
        decreases toks.len() - q,
    {
        if q >= toks.len() {
            return Err(unexpected_at(toks, q, Some(Token::Control(')'))));
        }
        if is_control(toks, q, ')') {
            return Ok((acc, q));
        }
        match type_parser(toks, q) {
            Err(d) => {
                return Err(d);
            },
            Ok((ty, n)) => {
                let v = q + n;
                match var_ident(toks, v) {
                    Err(d) => {
                        return Err(d);
                    },
                    Ok(name) => {
                        acc.push(Param { ident: WithSpan { span: toks[v].1, inner: name }, ty });
                        if is_control(toks, v + 1, ',') {
                            q = v + 2;
                        } else if is_control(toks, v + 1, ')') {
                            return Ok((acc, v + 1));
                        } else {
                            return Err(unexpected_at(toks, v + 1, Some(Token::Control(')'))));
                        }
                    },
                }
            },
        }
    }
}

fn func_def(toks: &Vec<(Token, Span)>, pos: usize) -> (r: Result<(MainBody, Vec<Diagnostic>, usize), Diagnostic>)
    requires
        pos < toks.len(),
    ensures
        match r {
            Ok((m, ds, x)) => func_def_at(toks@, pos as int) == Ok::<(MainView, Seq<Diagnostic>, nat), Diagnostic>((main_view(&m), ds@, x as nat)) && pos + x < toks.len(),
            Err(d) => func_def_at(toks@, pos as int) == Err::<(MainView, Seq<Diagnostic>, nat), Diagnostic>(d),
        },
{
    match func_ident(toks, pos + 1) {
        Err(d) => Err(d),
        Ok(name) => if !(pos + 2 < toks.len() && is_control(toks, pos + 2, '(')) {
            Err(unexpected_at(toks, pos + 2, Some(Token::Control('('))))
        } else {
            match params(toks, pos + 3) {
                Err(d) => Err(d),
                Ok((args, close)) => match type_parser(toks, close + 1) {
                    Err(d) => Err(d),
                    Ok((ty, n)) => match parse_body(toks, close + 1 + n) {
                        Err(d) => Err(d),
                        Ok((body, ds, bx)) => Ok(
                            (
                                MainBody::FuncDef { func_ident: name, args, return_ty: ty.inner, body },
                                ds,
                                close + 1 + n + bx - pos,
                            ),
                        ),
                    },
                },
            }
        },
    }
}

fn to_main(b: Body) -> (r: MainBody)
    ensures
        main_view(&r) == main_of(body_view(&b)),
{
    match b {
        Body::If(f) => MainBody::If(f),
        Body::While(w) => MainBody::While(w),
        Body::Exp(r) => MainBody::Exp(r),
        Body::VarAssignment { ident, expression } => MainBody::VarAssignment { ident, expression },
        Body::Return(r) => MainBody::Return(r),
        Body::Error => MainBody::Error,
    }
}

fn item(toks: &Vec<(Token, Span)>, pos: usize) -> (r: Result<(MainBody, Vec<Diagnostic>, usize), Diagnostic>)
    requires
        pos < toks.len(),
    ensures
        match r {
            Ok((m, ds, x)) => item_at(toks@, pos as int) == Ok::<(MainView, Seq<Diagnostic>, nat), Diagnostic>((main_view(&m), ds@, x as nat)) && pos + x < toks.len(),
            Err(d) => item_at(toks@, pos as int) == Err::<(MainView, Seq<Diagnostic>, nat), Diagnostic>(d),
        },
{
    if let Token::Function = &toks[pos].0 {
        func_def(toks, pos)
    } else {
        match statement(toks, pos) {
            Ok((b, ds, x)) => Ok((to_main(b), ds, x)),
            Err(d) => Err(d),
        }
    }
}

pub open spec fn items_view(v: Seq<MainBody>) -> Seq<MainView> {
    v.map_values(|m: MainBody| main_view(&m))
}

/// Parses a whole program: function definitions and statements, to the end
/// of the tokens. An item that fails stands as `Error`, its diagnostic is
/// kept, and reading goes on after the next `;`.
pub fn parser(toks: &Vec<(Token, Span)>) -> (r: (Vec<MainBody>, Vec<Diagnostic>))
    ensures
        items_view(r.0@) == program_spec(toks@).0,
        r.1@ == program_spec(toks@).1,
{
    let mut acc: Vec<MainBody> = Vec::new();
    let mut ds: Vec<Diagnostic> = Vec::new();
    let mut p: usize = 0;
    assert(items_view(acc@) =~= seq![]);
    while p < toks.len()
        invariant
            p <= toks.len(),
            items_from(toks@, p as int, items_view(acc@), ds@) == program_spec(toks@),
        decreases toks.len() - p,
    {
        let ghost before = items_view(acc@);
        let (m, extra) = match item(toks, p) {
            Ok((m, mut d, x)) => {
                ds.append(&mut d);
                (m, x)
            },
            Err(d) => {
                ds.push(d);
                (MainBody::Error, skip_len(toks, p))
            },
        };
        let ghost mv = main_view(&m);
        acc.push(m);
        assert(items_view(acc@) =~= before.push(mv));
        p = p + 1 + extra;
    }
    (acc, ds)
}

} // verus!
