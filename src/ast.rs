//! The syntax tree that the parser builds.
use vstd::prelude::*;

use crate::span::{Span, WithSpan};

verus! {

/// A value type of the language.
#[derive(Debug, Clone, Copy, PartialEq, Eq, Structural, Hash)]
pub enum Type {
    Int { nullable: bool },
    Float { nullable: bool },
    String { nullable: bool },
    Void,
}

impl Type {
    /// Whether the type also admits `null`; `void` never does.
    pub open spec fn spec_is_nullable(&self) -> bool {
        match *self {
            Type::Int { nullable } => nullable,
            Type::Float { nullable } => nullable,
            Type::String { nullable } => nullable,
            Type::Void => false,
        }
    }

    #[verifier::when_used_as_spec(spec_is_nullable)]
    pub fn is_nullable(&self) -> (r: bool)
        ensures
            r == self.spec_is_nullable(),
    {
        match self {
            Type::Int { nullable } => *nullable,
            Type::Float { nullable } => *nullable,
            Type::String { nullable } => *nullable,
            Type::Void => false,
        }
    }

    /// The spelling of the type in source text, `?` first when nullable.
    pub open spec fn spec_spelling(&self) -> Seq<char> {
        match *self {
            Type::Int { nullable } => if nullable {
                "?int"@
            } else {
                "int"@
            },
            Type::Float { nullable } => if nullable {
                "?float"@
            } else {
                "float"@
            },
            Type::String { nullable } => if nullable {
                "?string"@
            } else {
                "string"@
            },
            Type::Void => "void"@,
        }
    }

    /// The spelling of the type in source text, `?` first when nullable.
    pub fn spelling(&self) -> (r: String)
        ensures
            r@ == self.spec_spelling(),
    {
        match *self {
            Type::Int { nullable } => if nullable {
                "?int".to_owned()
            } else {
                "int".to_owned()
            },
            Type::Float { nullable } => if nullable {
                "?float".to_owned()
            } else {
                "float".to_owned()
            },
            Type::String { nullable } => if nullable {
                "?string".to_owned()
            } else {
                "string".to_owned()
            },
            Type::Void => "void".to_owned(),
        }
    }
}

/// A function parameter: its type and its variable name.
#[derive(Debug, Clone, PartialEq, Eq)]
pub struct Param {
    pub ident: WithSpan<String>,
    pub ty: WithSpan<Type>,
}

/// A leaf of an expression.
///
/// A floating-point literal keeps the text it was written with; the lexer
/// admits only spellings that read as a float.
#[derive(Debug, Clone, PartialEq)]
pub enum Term {
    Var(String),
    Int(i64),
    Float(String),
    Bool(bool),
    String(String),
    Null,
}

/// One element of an expression stored in postfix order: every operator
/// follows its operands.
#[derive(Debug, Clone, PartialEq)]
pub enum Expression {
    Add,
    Subtract,
    Multiply,
    Divide,
    Concat,
    Smaller,
    Greater,
    Equals,
    NotEquals,
    SmallerEquals,
    GreaterEquals,
    Not,
    Term(Term),
}

/// A right-hand value: a function call or a postfix expression.
#[derive(Debug, Clone, PartialEq)]
pub enum RVal {
    FunctionCall { ident: String, args: Vec<Vec<Expression>> },
    Expr { expr: Vec<Expression> },
}

/// A statement inside a block.
#[derive(Debug, PartialEq)]
pub enum Body {
    If(If),
    While(While),
    Exp(RVal),
    VarAssignment { ident: String, expression: RVal },
    Return(RVal),
    Error,
}

/// `if (cond) { .. } else { .. }`; the else branch is empty when absent.
#[derive(Debug, PartialEq)]
pub struct If {
    pub expr: RVal,
    pub if_body: Vec<Body>,
    pub else_body: Vec<Body>,
}

/// `while (cond) { .. }`.
#[derive(Debug, PartialEq)]
pub struct While {
    pub span: Span,
    pub expr: RVal,
    pub body: Vec<Body>,
}

/// An item of the top level of a program.
#[derive(Debug, PartialEq)]
pub enum MainBody {
    FuncDef { func_ident: String, args: Vec<Param>, return_ty: Type, body: Vec<Body> },
    If(If),
    While(While),
    Exp(RVal),
    VarAssignment { ident: String, expression: RVal },
    Return(RVal),
    Error,
}

/// A right-hand value with its expressions as sequences.
pub enum RValView {
    FunctionCall { ident: String, args: Seq<Seq<Expression>> },
    Expr { expr: Seq<Expression> },
}

impl View for RVal {
    type V = RValView;

    open spec fn view(&self) -> RValView {
        match self {
            RVal::FunctionCall { ident, args } => RValView::FunctionCall {
                ident: *ident,
                args: args@.map_values(|a: Vec<Expression>| a@),
            },
            RVal::Expr { expr } => RValView::Expr { expr: expr@ },
        }
    }
}

/// A statement with its blocks as sequences.
pub enum BodyView {
    If { expr: RValView, if_body: Seq<BodyView>, else_body: Seq<BodyView> },
    While { span: Span, expr: RValView, body: Seq<BodyView> },
    Exp(RValView),
    VarAssignment { ident: String, expression: RValView },
    Return(RValView),
    Error,
}

/// The view of the statements of a block.
pub open spec fn block_view(v: &Vec<Body>) -> Seq<BodyView>
    decreases v, 1int,
{
    Seq::new(
        v.len() as nat,
        |i: int|
            if 0 <= i < v.len() {
                body_view(&v[i])
            } else {
                BodyView::Error
            },
    )
}

/// The view of a statement.
pub open spec fn body_view(b: &Body) -> BodyView
    decreases b, 0int,
{
    match b {
        Body::If(f) => BodyView::If {
            expr: f.expr@,
            if_body: block_view(&f.if_body),
            else_body: block_view(&f.else_body),
        },
        Body::While(w) => BodyView::While { span: w.span, expr: w.expr@, body: block_view(&w.body) },
        Body::Exp(r) => BodyView::Exp(r@),
        Body::VarAssignment { ident, expression } => BodyView::VarAssignment {
            ident: *ident,
            expression: expression@,
        },
        Body::Return(r) => BodyView::Return(r@),
        Body::Error => BodyView::Error,
    }
}

/// A top-level item with its blocks as sequences.
pub enum MainView {
    FuncDef { func_ident: String, args: Seq<Param>, return_ty: Type, body: Seq<BodyView> },
    If { expr: RValView, if_body: Seq<BodyView>, else_body: Seq<BodyView> },
    While { span: Span, expr: RValView, body: Seq<BodyView> },
    Exp(RValView),
    VarAssignment { ident: String, expression: RValView },
    Return(RValView),
    Error,
}

/// The view of a top-level item.
pub open spec fn main_view(m: &MainBody) -> MainView {
    match m {
        MainBody::FuncDef { func_ident, args, return_ty, body } => MainView::FuncDef {
            func_ident: *func_ident,
            args: args@,
            return_ty: *return_ty,
            body: block_view(body),
        },
        MainBody::If(f) => MainView::If {
            expr: f.expr@,
            if_body: block_view(&f.if_body),
            else_body: block_view(&f.else_body),
        },
        MainBody::While(w) => MainView::While { span: w.span, expr: w.expr@, body: block_view(&w.body) },
        MainBody::Exp(r) => MainView::Exp(r@),
        MainBody::VarAssignment { ident, expression } => MainView::VarAssignment {
            ident: *ident,
            expression: expression@,
        },
        MainBody::Return(r) => MainView::Return(r@),
        MainBody::Error => MainView::Error,
    }
}

/// A statement read at the top level.
pub open spec fn main_of(b: BodyView) -> MainView {
    match b {
        BodyView::If { expr, if_body, else_body } => MainView::If { expr, if_body, else_body },
        BodyView::While { span, expr, body } => MainView::While { span, expr, body },
        BodyView::Exp(r) => MainView::Exp(r),
        BodyView::VarAssignment { ident, expression } => MainView::VarAssignment { ident, expression },
        BodyView::Return(r) => MainView::Return(r),
        BodyView::Error => MainView::Error,
    }
}

} // verus!
