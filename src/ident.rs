//! Identifiers and type names.
use vstd::prelude::*;

use crate::ast::Type;
use crate::diagnostic::{Diagnostic, DiagnosticKind, Severity};
use crate::expression::{end_span, unexpected, unexpected_at};
use crate::span::{Span, WithSpan};
use crate::text::{alphanumeric, chars_of, is_alphanumeric, text_is};
use crate::token::{Token, TokenView};

verus! {

/// What is wrong with an identifier, if anything: it must start with a
/// letter or digit and go on with letters, digits and `_`. An empty one
/// should never reach here and is reported as critical.
pub open spec fn ident_problem(t: Seq<char>) -> Option<(Severity, DiagnosticKind)> {
    if t.len() == 0 {
        Some((Severity::Critical, DiagnosticKind::EmptyIdent))
    } else if !alphanumeric(t[0]) {
        Some((Severity::Error, DiagnosticKind::IdentStart))
    } else if exists|k: int| 1 <= k < t.len() && !(alphanumeric(#[trigger] t[k]) || t[k] == '_') {
        Some((Severity::Error, DiagnosticKind::IdentChars))
    } else {
        None
    }
}

/// What is wrong with a variable name: it must be `$` and an identifier.
pub open spec fn var_problem(t: Seq<char>) -> Option<(Severity, DiagnosticKind)> {
    if t.len() > 0 && t[0] == '$' {
        ident_problem(t.drop_first())
    } else {
        Some((Severity::Error, DiagnosticKind::MissingSigil))
    }
}

pub open spec fn checked(problem: Option<(Severity, DiagnosticKind)>, span: Span, t: String) -> Result<String, Diagnostic> {
    match problem {
        None => Ok(t),
        Some((severity, kind)) => Err(Diagnostic { span, severity, kind }),
    }
}

/// The function name at `p`.
pub open spec fn func_ident_at(toks: Seq<(Token, Span)>, p: int) -> Result<String, Diagnostic> {
    if 0 <= p < toks.len() {
        match toks[p].0 {
            Token::Ident(name) => checked(ident_problem(name@), toks[p].1, name),
            _ => Err(unexpected(toks, p, None)),
        }
    } else {
        Err(unexpected(toks, p, None))
    }
}

/// The variable name at `p`, with its `$`.
pub open spec fn var_ident_at(toks: Seq<(Token, Span)>, p: int) -> Result<String, Diagnostic> {
    if 0 <= p < toks.len() {
        match toks[p].0 {
            Token::Ident(name) => checked(var_problem(name@), toks[p].1, name),
            _ => Err(unexpected(toks, p, None)),
        }
    } else {
        Err(unexpected(toks, p, None))
    }
}

/// The type that `name` names, nullable or not; `void` never is.
pub open spec fn type_named(nullable: bool, name: Seq<char>) -> Option<Type> {
    if name == "int"@ {
        Some(Type::Int { nullable })
    } else if name == "float"@ {
        Some(Type::Float { nullable })
    } else if name == "string"@ {
        Some(Type::String { nullable })
    } else if name == "void"@ && !nullable {
        Some(Type::Void)
    } else {
        None
    }
}

/// The type at `p`: an optional `?`, then a type name. The result holds the
/// type with its span and how many tokens after `p` it takes.
pub open spec fn type_at(toks: Seq<(Token, Span)>, p: int) -> Result<(WithSpan<Type>, nat), Diagnostic> {
    let nullable = 0 <= p < toks.len() && toks[p].0 == Token::Control('?');
    let q = if nullable {
        p + 1
    } else {
        p
    };
    if 0 <= q < toks.len() {
        let span = if nullable {
            Span { start: toks[p].1.start, end: toks[q].1.end }
        } else {
            toks[q].1
        };
        match toks[q].0 {
            Token::Ident(name) => match type_named(nullable, name@) {
                Some(t) => Ok((WithSpan { span, inner: t }, (q - p) as nat)),
                None => if name@ == "void"@ {
                    Err(
                        Diagnostic {
                            span,
                            severity: Severity::Error,
                            kind: DiagnosticKind::NullableVoid,
                        },
                    )
                } else {
                    Err(
                        Diagnostic {
                            span: toks[q].1,
                            severity: Severity::Error,
                            kind: DiagnosticKind::ExpectedType { found: Some(toks[q].0) },
                        },
                    )
                },
            },
            _ => Err(
                Diagnostic {
                    span: toks[q].1,
                    severity: Severity::Error,
                    kind: DiagnosticKind::ExpectedType { found: Some(toks[q].0) },
                },
            ),
        }
    } else {
        Err(
            Diagnostic {
                span: end_span(toks),
                severity: Severity::Error,
                kind: DiagnosticKind::ExpectedType { found: None },
            },
        )
    }
}

/// What is wrong with the identifier made of `w` from index `from` on.
fn problem_from(w: &Vec<char>, from: usize) -> (r: Option<(Severity, DiagnosticKind)>)
    requires
        from <= w.len(),
    ensures
        r == ident_problem(w@.subrange(from as int, w.len() as int)),
{
    let ghost t = w@.subrange(from as int, w.len() as int);
    if from == w.len() {
        return Some((Severity::Critical, DiagnosticKind::EmptyIdent));
    }
    if !is_alphanumeric(w[from]) {
        return Some((Severity::Error, DiagnosticKind::IdentStart));
    }
    assert(t[0] == w@[from as int]);
    let mut k = from + 1;
    while k < w.len()
        invariant
            from < k <= w.len(),
            t == w@.subrange(from as int, w.len() as int),
            alphanumeric(t[0]),
            forall|j: int| 1 <= j < k - from ==> alphanumeric(#[trigger] t[j]) || t[j] == '_',
        decreases w.len() - k,
    {
        let c = w[k];
        if !(is_alphanumeric(c) || c == '_') {
            assert(t[k - from] == w@[k as int]);
            assert(alphanumeric(t[0]));
            assert(1 <= k - from < t.len() && !(alphanumeric(t[k - from]) || t[k - from] == '_'));
            return Some((Severity::Error, DiagnosticKind::IdentChars));
        }
        k = k + 1;
    }
    None
}

/// Checks an identifier: a letter or digit first, then letters, digits and
/// `_`. Gives the identifier back when it is well formed.
pub fn check_ident(span: Span, ident: String) -> (r: Result<String, Diagnostic>)
    ensures
        r == checked(ident_problem(ident@), span, ident),
{
    let w = chars_of(ident.as_str());
    assert(w@.subrange(0, w@.len() as int) =~= w@);
    match problem_from(&w, 0) {
        None => Ok(ident),
        Some((severity, kind)) => Err(Diagnostic { span, severity, kind }),
    }
}

/// Reads the function name at token `pos`.
pub fn func_ident(toks: &Vec<(Token, Span)>, pos: usize) -> (r: Result<String, Diagnostic>)
    ensures
        r == func_ident_at(toks@, pos as int),
{
    if pos < toks.len() {
        match &toks[pos].0 {
            Token::Ident(name) => check_ident(toks[pos].1, name.clone()),
            _ => Err(unexpected_at(toks, pos, None)),
        }
    } else {
        Err(unexpected_at(toks, pos, None))
    }
}

/// Reads the variable name at token `pos`: `$` and an identifier. The name
/// keeps its `$`.
pub fn var_ident(toks: &Vec<(Token, Span)>, pos: usize) -> (r: Result<String, Diagnostic>)
    ensures
        r == var_ident_at(toks@, pos as int),
{
    if pos < toks.len() {
        match &toks[pos].0 {
            Token::Ident(name) => {
                let w = chars_of(name.as_str());
                if w.len() > 0 && w[0] == '$' {
                    assert(w@.subrange(1, w@.len() as int) =~= w@.drop_first());
                    match problem_from(&w, 1) {
                        None => Ok(name.clone()),
                        Some((severity, kind)) => Err(Diagnostic { span: toks[pos].1, severity, kind }),
                    }
                } else {
                    Err(Diagnostic { span: toks[pos].1, severity: Severity::Error, kind: DiagnosticKind::MissingSigil })
                }
            },
            _ => Err(unexpected_at(toks, pos, None)),
        }
    } else {
        Err(unexpected_at(toks, pos, None))
    }
}

/// The type that `name` names.
pub fn named_type(nullable: bool, name: &str) -> (r: Option<Type>)
    ensures
        r == type_named(nullable, name@),
{
    if text_is(name, "int") {
        Some(Type::Int { nullable })
    } else if text_is(name, "float") {
        Some(Type::Float { nullable })
    } else if text_is(name, "string") {
        Some(Type::String { nullable })
    } else if text_is(name, "void") && !nullable {
        Some(Type::Void)
    } else {
        None
    }
}

/// Reads a type at token `pos`: an optional `?`, then one of `int`,
/// `float`, `string` and `void`. `?void` is refused with its own diagnostic.
/// The result holds the type with its span and the number of tokens it takes.
pub fn type_parser(toks: &Vec<(Token, Span)>, pos: usize) -> (r: Result<(WithSpan<Type>, usize), Diagnostic>)
    ensures
        match r {
            Ok((t, n)) => type_at(toks@, pos as int) == Ok::<(WithSpan<Type>, nat), Diagnostic>((t, (n - 1) as nat)) && 1 <= n && pos + n <= toks.len(),
            Err(d) => type_at(toks@, pos as int) == Err::<(WithSpan<Type>, nat), Diagnostic>(d),
        },
        pos + 1 < toks.len() && toks@[pos as int].0 == Token::Control('?')
            && toks@[pos + 1].0@ == TokenView::Ident("void"@) ==> r is Err && r->Err_0.kind
            == DiagnosticKind::NullableVoid,
{
    proof {
        reveal_strlit("int");
        reveal_strlit("float");
        reveal_strlit("string");
        reveal_strlit("void");
        assert("void"@ != "int"@ && "void"@ != "float"@ && "void"@ != "string"@) by {
            assert("void"@.len() != "int"@.len());
            assert("void"@.len() != "float"@.len());
            assert("void"@.len() != "string"@.len());
        }
    }
    let nullable = pos < toks.len() && match &toks[pos].0 {
        Token::Control(c) => *c == '?',
        _ => false,
    };
    let q = if nullable {
        pos + 1
    } else {
        pos
    };
    if q < toks.len() {
        let span = if nullable {
            Span { start: toks[pos].1.start, end: toks[q].1.end }
        } else {
            toks[q].1
        };
        match &toks[q].0 {
            Token::Ident(name) => match named_type(nullable, name.as_str()) {
                Some(t) => Ok((WithSpan { span, inner: t }, q - pos + 1)),
                None => if text_is(name.as_str(), "void") {
                    Err(Diagnostic { span, severity: Severity::Error, kind: DiagnosticKind::NullableVoid })
                } else {
                    Err(
                        Diagnostic {
                            span: toks[q].1,
                            severity: Severity::Error,
                            kind: DiagnosticKind::ExpectedType { found: Some(toks[q].0.copy()) },
                        },
                    )
                },
            },
            _ => Err(
                Diagnostic {
                    span: toks[q].1,
                    severity: Severity::Error,
                    kind: DiagnosticKind::ExpectedType { found: Some(toks[q].0.copy()) },
                },
            ),
        }
    } else {
        let span = if toks.len() == 0 {
            Span { start: 0, end: 0 }
        } else {
            let e = toks[toks.len() - 1].1.end;
            Span { start: e, end: e }
        };
        Err(Diagnostic { span, severity: Severity::Error, kind: DiagnosticKind::ExpectedType { found: None } })
    }
}

/// The tokens of the four type names, as a parser that expected a type
/// reports them.
pub fn expected_types() -> (r: [Option<Token>; 4])
    ensures
        r@ == seq![
            Some(Token::Type(Type::Int { nullable: false })),
            Some(Token::Type(Type::Float { nullable: false })),
            Some(Token::Type(Type::String { nullable: false })),
            Some(Token::Type(Type::Void)),
        ],
{
    let r = [
        Some(Token::Type(Type::Int { nullable: false })),
        Some(Token::Type(Type::Float { nullable: false })),
        Some(Token::Type(Type::String { nullable: false })),
        Some(Token::Type(Type::Void)),
    ];
    assert(r@ =~= seq![
        Some(Token::Type(Type::Int { nullable: false })),
        Some(Token::Type(Type::Float { nullable: false })),
        Some(Token::Type(Type::String { nullable: false })),
        Some(Token::Type(Type::Void)),
    ]);
    r
}

} // verus!
