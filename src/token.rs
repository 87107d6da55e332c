//! The tokens that the lexer produces.
use vstd::prelude::*;

use crate::ast::Type;
use crate::text::string_of;

verus! {

#[derive(Debug, Clone, PartialEq, Eq, Hash)]
pub enum Token {
    Null,
    Bool(bool),
    /// The text of a numeric literal, read into a number by the parser.
    Num(String),
    /// The contents of a string literal with its escapes decoded.
    Str(String),
    /// A maximal run of operator characters.
    Op(String),
    /// One of `()[]{};,` or the `?` that marks a nullable type.
    Control(char),
    /// An identifier; variables keep their `$`.
    Ident(String),
    Function,
    If,
    Else,
    ElseIf,
    Return,
    While,
    For,
    Break,
    Continue,
    Type(Type),
}

impl Token {
    /// The text of the token as it is shown to a reader.
    pub fn text(&self) -> (r: String)
        ensures
            r@ == token_text(self@),
    {
        match self {
            Token::Null => "null".to_owned(),
            Token::Bool(b) => if *b {
                "true".to_owned()
            } else {
                "false".to_owned()
            },
            Token::Num(t) => t.clone(),
            Token::Str(t) => t.clone(),
            Token::Op(t) => t.clone(),
            Token::Control(c) => {
                let mut v: Vec<char> = Vec::new();
                v.push(*c);
                assert(v@ =~= seq![*c]);
                string_of(&v)
            },
            Token::Ident(t) => t.clone(),
            Token::Function => "function".to_owned(),
            Token::If => "if".to_owned(),
            Token::Else => "else".to_owned(),
            Token::ElseIf => "elseif".to_owned(),
            Token::Return => "return".to_owned(),
            Token::While => "while".to_owned(),
            Token::For => "for".to_owned(),
            Token::Break => "break".to_owned(),
            Token::Continue => "continue".to_owned(),
            Token::Type(t) => t.spelling(),
        }
    }

    /// A copy of the token.
    pub fn copy(&self) -> (r: Token)
        ensures
            r == *self,
    {
        match self {
            Token::Null => Token::Null,
            Token::Bool(b) => Token::Bool(*b),
            Token::Num(t) => Token::Num(t.clone()),
            Token::Str(t) => Token::Str(t.clone()),
            Token::Op(t) => Token::Op(t.clone()),
            Token::Control(c) => Token::Control(*c),
            Token::Ident(t) => Token::Ident(t.clone()),
            Token::Function => Token::Function,
            Token::If => Token::If,
            Token::Else => Token::Else,
            Token::ElseIf => Token::ElseIf,
            Token::Return => Token::Return,
            Token::While => Token::While,
            Token::For => Token::For,
            Token::Break => Token::Break,
            Token::Continue => Token::Continue,
            Token::Type(t) => Token::Type(*t),
        }
    }
}

/// The text of a token as it is shown to a reader: literals and names as
/// they were read, keywords and types by their spelling.
pub open spec fn token_text(t: TokenView) -> Seq<char> {
    match t {
        TokenView::Null => "null"@,
        TokenView::Bool(b) => if b {
            "true"@
        } else {
            "false"@
        },
        TokenView::Num(n) => n,
        TokenView::Str(n) => n,
        TokenView::Op(n) => n,
        TokenView::Control(c) => seq![c],
        TokenView::Ident(n) => n,
        TokenView::Function => "function"@,
        TokenView::If => "if"@,
        TokenView::Else => "else"@,
        TokenView::ElseIf => "elseif"@,
        TokenView::Return => "return"@,
        TokenView::While => "while"@,
        TokenView::For => "for"@,
        TokenView::Break => "break"@,
        TokenView::Continue => "continue"@,
        TokenView::Type(t) => t.spec_spelling(),
    }
}

/// A token with its text as a sequence of characters.
pub enum TokenView {
    Null,
    Bool(bool),
    Num(Seq<char>),
    Str(Seq<char>),
    Op(Seq<char>),
    Control(char),
    Ident(Seq<char>),
    Function,
    If,
    Else,
    ElseIf,
    Return,
    While,
    For,
    Break,
    Continue,
    Type(Type),
}

impl View for Token {
    type V = TokenView;

    open spec fn view(&self) -> TokenView {
        match self {
            Token::Null => TokenView::Null,
            Token::Bool(b) => TokenView::Bool(*b),
            Token::Num(t) => TokenView::Num(t@),
            Token::Str(t) => TokenView::Str(t@),
            Token::Op(t) => TokenView::Op(t@),
            Token::Control(c) => TokenView::Control(*c),
            Token::Ident(t) => TokenView::Ident(t@),
            Token::Function => TokenView::Function,
            Token::If => TokenView::If,
            Token::Else => TokenView::Else,
            Token::ElseIf => TokenView::ElseIf,
            Token::Return => TokenView::Return,
            Token::While => TokenView::While,
            Token::For => TokenView::For,
            Token::Break => TokenView::Break,
            Token::Continue => TokenView::Continue,
            Token::Type(t) => TokenView::Type(*t),
        }
    }
}

/// The keyword spelled by `w`, if it is one.
pub open spec fn keyword_of(w: Seq<char>) -> Option<TokenView> {
    if w == "function"@ {
        Some(TokenView::Function)
    } else if w == "if"@ {
        Some(TokenView::If)
    } else if w == "else"@ {
        Some(TokenView::Else)
    } else if w == "elseif"@ {
        Some(TokenView::ElseIf)
    } else if w == "true"@ {
        Some(TokenView::Bool(true))
    } else if w == "false"@ {
        Some(TokenView::Bool(false))
    } else if w == "null"@ {
        Some(TokenView::Null)
    } else if w == "while"@ {
        Some(TokenView::While)
    } else if w == "return"@ {
        Some(TokenView::Return)
    } else if w == "for"@ {
        Some(TokenView::For)
    } else if w == "continue"@ {
        Some(TokenView::Continue)
    } else if w == "break"@ {
        Some(TokenView::Break)
    } else {
        None
    }
}

/// Whether `w` holds the same characters as the literal `lit`.
pub(crate) fn is_word(w: &Vec<char>, lit: &str) -> (r: bool)
    ensures
        r == (w@ == lit@),
{
    let n = lit.unicode_len();
    if w.len() != n {
        return false;
    }
    let mut i: usize = 0;
    while i < n
        invariant
            n == lit@.len(),
            w@.len() == n,
            i <= n,
            forall|k: int| 0 <= k < i ==> w@[k] == lit@[k],
        decreases n - i,
    {
        if w[i] != lit.get_char(i) {
            return false;
        }
        i = i + 1;
    }
    assert(w@ =~= lit@);
    true
}

/// The keyword token spelled by `w`, or `None` when `w` is no keyword.
pub fn keyword(w: &Vec<char>) -> (r: Option<Token>)
    ensures
        r matches Some(t) ==> keyword_of(w@) == Some(t@),
        r is None <==> keyword_of(w@) is None,
{
    if is_word(w, "function") {
        Some(Token::Function)
    } else if is_word(w, "if") {
        Some(Token::If)
    } else if is_word(w, "else") {
        Some(Token::Else)
    } else if is_word(w, "elseif") {
        Some(Token::ElseIf)
    } else if is_word(w, "true") {
        Some(Token::Bool(true))
    } else if is_word(w, "false") {
        Some(Token::Bool(false))
    } else if is_word(w, "null") {
        Some(Token::Null)
    } else if is_word(w, "while") {
        Some(Token::While)
    } else if is_word(w, "return") {
        Some(Token::Return)
    } else if is_word(w, "for") {
        Some(Token::For)
    } else if is_word(w, "continue") {
        Some(Token::Continue)
    } else if is_word(w, "break") {
        Some(Token::Break)
    } else {
        None
    }
}

} // verus!
