use rust_ifj22_compiler::ast::{Body, Expression, MainBody, RVal, Term, Type};
use rust_ifj22_compiler::diagnostic::{DiagnosticKind, Severity};
use rust_ifj22_compiler::expression::{expression, expression_to_reverse_polish};
use rust_ifj22_compiler::ident::{check_ident, expected_types, func_ident, type_parser, var_ident};
use rust_ifj22_compiler::lexer::lexer;
use rust_ifj22_compiler::parser::{function_call, if_block, parse_body, parser, rval, while_block};
use rust_ifj22_compiler::span::{Span, WithSpan};
use rust_ifj22_compiler::token::Token;

fn toks(src: &str) -> Vec<(Token, Span)> {
    let (t, d) = lexer(src);
    assert!(d.is_empty(), "{:?}", d);
    t
}

fn postfix_of(src: &str) -> Vec<Expression> {
    let t = toks(src);
    let (e, n) = expression(&t, 0).unwrap();
    assert_eq!(n, t.len());
    expression_to_reverse_polish(e)
}

fn num(i: i64) -> Expression {
    Expression::Term(Term::Int(i))
}

fn var(v: &str) -> Expression {
    Expression::Term(Term::Var(v.to_string()))
}

fn s(t: &str) -> String {
    t.to_string()
}

#[test]
fn product_binds_tighter_than_sum() {
    assert_eq!(
        postfix_of("1+2*3"),
        vec![num(1), num(2), num(3), Expression::Multiply, Expression::Add]
    );
}

#[test]
fn division_associates_left() {
    assert_eq!(
        postfix_of("8/4/2"),
        vec![num(8), num(4), Expression::Divide, num(2), Expression::Divide]
    );
}

#[test]
fn parentheses_group() {
    assert_eq!(
        postfix_of("(1+2)*3"),
        vec![num(1), num(2), Expression::Add, num(3), Expression::Multiply]
    );
}

#[test]
fn all_levels_in_order() {
    assert_eq!(
        postfix_of("$a . \"x\" - 1 < 2 !== true === null"),
        vec![
            var("$a"),
            Expression::Term(Term::String(s("x"))),
            Expression::Concat,
            num(1),
            Expression::Subtract,
            num(2),
            Expression::Smaller,
            Expression::Term(Term::Bool(true)),
            Expression::NotEquals,
            Expression::Term(Term::Null),
            Expression::Equals,
        ]
    );
    assert_eq!(
        postfix_of("1 >= 2 > 3 <= 4"),
        vec![
            num(1),
            num(2),
            Expression::GreaterEquals,
            num(3),
            Expression::Greater,
            num(4),
            Expression::SmallerEquals,
        ]
    );
}

#[test]
fn numbers_become_int_or_float() {
    assert_eq!(postfix_of("1.5e3"), vec![Expression::Term(Term::Float(s("1.5e3")))]);
    assert_eq!(postfix_of("9223372036854775807"), vec![num(i64::MAX)]);
    let t = toks("9223372036854775808");
    let err = expression(&t, 0).unwrap_err();
    assert_eq!(err.kind, DiagnosticKind::InvalidInt);
    assert_eq!(err.span, Span { start: 0, end: 19 });
}

#[test]
fn expression_stops_before_other_tokens() {
    let t = toks("1 + 2 ;");
    let (e, n) = expression(&t, 0).unwrap();
    assert_eq!(n, 3);
    assert_eq!(expression_to_reverse_polish(e), vec![num(1), num(2), Expression::Add]);
}

#[test]
fn missing_operand_is_reported() {
    let t = toks("1 +");
    let err = expression(&t, 0).unwrap_err();
    assert_eq!(err.kind, DiagnosticKind::Unexpected { found: None, expected: None });
    assert_eq!(err.span, Span { start: 3, end: 3 });
    let t = toks("(1");
    let err = expression(&t, 0).unwrap_err();
    assert_eq!(
        err.kind,
        DiagnosticKind::Unexpected { found: None, expected: Some(Token::Control(')')) }
    );
}

#[test]
fn identifiers_are_validated() {
    let sp = Span { start: 0, end: 1 };
    assert_eq!(check_ident(sp, s("a_1")), Ok(s("a_1")));
    assert_eq!(check_ident(sp, s("1abc")), Ok(s("1abc")));
    assert_eq!(check_ident(sp, s("_abc")).unwrap_err().kind, DiagnosticKind::IdentStart);
    assert_eq!(check_ident(sp, s("a-b")).unwrap_err().kind, DiagnosticKind::IdentChars);
    let empty = check_ident(sp, s("")).unwrap_err();
    assert_eq!(empty.kind, DiagnosticKind::EmptyIdent);
    assert_eq!(empty.severity, Severity::Critical);
}

#[test]
fn variable_names_need_their_sigil() {
    let t = toks("$_abc");
    assert_eq!(var_ident(&t, 0).unwrap_err().kind, DiagnosticKind::IdentStart);
    let t = vec![(Token::Ident(s("$a_1")), Span { start: 0, end: 4 })];
    assert_eq!(var_ident(&t, 0), Ok(s("$a_1")));
    let t = toks("abc");
    assert_eq!(var_ident(&t, 0).unwrap_err().kind, DiagnosticKind::MissingSigil);
    assert_eq!(func_ident(&t, 0), Ok(s("abc")));
    let t = toks("$");
    assert_eq!(var_ident(&t, 0).unwrap_err().kind, DiagnosticKind::EmptyIdent);
}

#[test]
fn nullable_void_is_refused() {
    let t = toks("?void");
    let err = type_parser(&t, 0).unwrap_err();
    assert_eq!(err.kind, DiagnosticKind::NullableVoid);
    assert_eq!(err.span, Span { start: 0, end: 5 });
}

#[test]
fn types_are_read() {
    let t = toks("?int float string void bool");
    let (ty, n) = type_parser(&t, 0).unwrap();
    assert_eq!((ty.inner, n), (Type::Int { nullable: true }, 2));
    assert_eq!(ty.span, Span { start: 0, end: 4 });
    assert!(ty.inner.is_nullable());
    assert_eq!(type_parser(&t, 2).unwrap().0.inner, Type::Float { nullable: false });
    assert_eq!(type_parser(&t, 3).unwrap().0.inner, Type::String { nullable: false });
    assert_eq!(type_parser(&t, 4).unwrap().0.inner, Type::Void);
    assert!(!Type::Void.is_nullable());
    assert_eq!(
        type_parser(&t, 5).unwrap_err().kind,
        DiagnosticKind::ExpectedType { found: Some(Token::Ident(s("bool"))) }
    );
    assert_eq!(expected_types()[3], Some(Token::Type(Type::Void)));
}

#[test]
fn calls_take_postfix_arguments() {
    let t = toks("foo(1, $x + 2,)");
    let expected = RVal::FunctionCall {
        ident: s("foo"),
        args: vec![vec![num(1)], vec![var("$x"), num(2), Expression::Add]],
    };
    assert_eq!(function_call(&t, 0), Ok((expected, t.len())));
    let (r, n) = rval(&t, 0).unwrap();
    assert_eq!(n, t.len());
    assert!(matches!(r, RVal::FunctionCall { .. }));
    let t = toks("bar()");
    assert_eq!(
        rval(&t, 0),
        Ok((RVal::FunctionCall { ident: s("bar"), args: vec![] }, 3))
    );
}

#[test]
fn malformed_statement_becomes_error_slot() {
    let t = toks("{ $a = 1; $b = ; $c = 2; }");
    let (body, diags, n) = parse_body(&t, 0).unwrap();
    assert_eq!(n, t.len() - 1);
    assert_eq!(body.len(), 3);
    assert_eq!(
        body[0],
        Body::VarAssignment { ident: s("$a"), expression: RVal::Expr { expr: vec![num(1)] } }
    );
    assert_eq!(body[1], Body::Error);
    assert_eq!(
        body[2],
        Body::VarAssignment { ident: s("$c"), expression: RVal::Expr { expr: vec![num(2)] } }
    );
    assert_eq!(diags.len(), 1);
    assert_eq!(
        diags[0].kind,
        DiagnosticKind::Unexpected { found: Some(Token::Control(';')), expected: None }
    );
}

#[test]
fn recovery_goes_on_after_each_error() {
    let t = toks("{ $a = 1; $b = ; $c = 2; return ; f(1); }");
    let (body, diags, _) = parse_body(&t, 0).unwrap();
    assert_eq!(body.len(), 5);
    assert_eq!(body[1], Body::Error);
    assert_eq!(body[3], Body::Error);
    assert_eq!(diags.len(), 2);
    assert!(matches!(body[4], Body::Exp(RVal::FunctionCall { .. })));
}

#[test]
fn control_blocks_are_read() {
    let t = toks("if ($a < 1) { return 1; } else { $a = 2; }");
    let (f, diags, n) = if_block(&t, 0).unwrap();
    assert!(diags.is_empty());
    assert_eq!(n, t.len() - 1);
    assert_eq!(f.expr, RVal::Expr { expr: vec![var("$a"), num(1), Expression::Smaller] });
    assert_eq!(f.if_body, vec![Body::Return(RVal::Expr { expr: vec![num(1)] })]);
    assert_eq!(f.else_body.len(), 1);
    let t = toks("if (1) { }");
    assert!(if_block(&t, 0).unwrap().0.else_body.is_empty());
    let t = toks("while (f()) { g(); }");
    let (w, _, n) = while_block(&t, 0).unwrap();
    assert_eq!(n, t.len() - 1);
    assert_eq!(w.span, Span { start: 0, end: 20 });
    assert_eq!(w.body.len(), 1);
}

#[test]
fn program_holds_functions_and_statements() {
    let t = toks("function add(int $a, ?string $b,) void { return $a; } $x = add(1, 2); ) ; 3;");
    let (items, diags) = parser(&t);
    assert_eq!(items.len(), 4);
    match &items[0] {
        MainBody::FuncDef { func_ident, args, return_ty, body } => {
            assert_eq!(func_ident, "add");
            assert_eq!(args.len(), 2);
            assert_eq!(args[0].ident.inner, "$a");
            assert_eq!(args[1].ty.inner, Type::String { nullable: true });
            assert_eq!(*return_ty, Type::Void);
            assert_eq!(body.len(), 1);
        }
        other => panic!("{:?}", other),
    }
    assert!(matches!(items[1], MainBody::VarAssignment { .. }));
    assert_eq!(items[2], MainBody::Error);
    assert_eq!(items[3], MainBody::Exp(RVal::Expr { expr: vec![num(3)] }));
    assert_eq!(diags.len(), 1);
}

#[test]
fn spanned_values_give_access() {
    let mut w = WithSpan::new(Span::new(1, 4), 7u8);
    assert_eq!(w.span(), Span { start: 1, end: 4 });
    assert_eq!(w.span().len(), 3);
    *w.inner_mut() = 9;
    assert_eq!(*w.inner(), 9);
    assert_eq!(w.into_inner(), 9);
}
