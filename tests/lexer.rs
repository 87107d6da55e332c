use rust_ifj22_compiler::diagnostic::{DiagnosticKind, Severity};
use rust_ifj22_compiler::lexer::{comment, ident, lexer};
use rust_ifj22_compiler::span::Span;
use rust_ifj22_compiler::token::Token;

fn tokens(src: &str) -> Vec<Token> {
    lexer(src).0.into_iter().map(|(t, _)| t).collect()
}

fn s(t: &str) -> String {
    t.to_string()
}

#[test]
fn empty_file() {
    let (toks, diags) = lexer("");
    assert!(toks.is_empty());
    assert!(diags.is_empty());
}

#[test]
fn unexpected_char() {
    for src in ["#", "1 @ 2", "$a = `b`;", "x: int"] {
        let (_, diags) = lexer(src);
        assert!(!diags.is_empty(), "Lexer failed to spot the mistake in {src}");
        assert!(diags.iter().all(|d| d.kind == DiagnosticKind::UnexpectedChar));
    }
}

#[test]
fn token_text_shows_what_was_read() {
    assert_eq!(Token::Control('{').text(), "{");
    assert_eq!(Token::Bool(false).text(), "false");
    assert_eq!(Token::ElseIf.text(), "elseif");
    assert_eq!(Token::Num(s("1e3")).text(), "1e3");
    assert_eq!(
        Token::Type(rust_ifj22_compiler::ast::Type::String { nullable: true }).text(),
        "?string"
    );
    assert_eq!(rust_ifj22_compiler::ast::Type::Float { nullable: false }.spelling(), "float");
}

#[test]
fn every_escape_decodes_to_its_character() {
    let cases: Vec<(&str, char)> = vec![
        ("\"\\\\\"", '\\'),
        ("\"\\\"\"", '"'),
        ("\"\\n\"", '\n'),
        ("\"\\r\"", '\r'),
        ("\"\\t\"", '\t'),
        ("\"\\v\"", '\x0B'),
        ("\"\\e\"", '\x1B'),
        ("\"\\f\"", '\x0C'),
        ("\"\\101\"", 'A'),
        ("\"\\377\"", '\u{FF}'),
        ("\"\\x41\"", 'A'),
        ("\"\\xfF\"", '\u{FF}'),
        ("\"\\u00e9\"", 'é'),
        ("\"\\u20AC\"", '€'),
    ];
    for (src, expected) in cases {
        let (toks, diags) = lexer(src);
        assert_eq!(toks.len(), 1, "{}", src);
        assert_eq!(toks[0].0, Token::Str(expected.to_string()), "{}", src);
        assert_eq!(toks[0].1, Span { start: 0, end: src.len() });
        assert!(diags.is_empty(), "{}", src);
    }
}

#[test]
fn octal_escape_above_377_is_replaced() {
    let (toks, diags) = lexer("\"\\477\"");
    assert_eq!(tokens("\"\\477\""), vec![Token::Str(s("\u{FFFD}"))]);
    assert_eq!(toks.len(), 1);
    assert_eq!(diags.len(), 1);
    assert_eq!(diags[0].severity, Severity::Error);
    assert_eq!(diags[0].kind, DiagnosticKind::OctalOutOfRange);
    assert_eq!(diags[0].span, Span { start: 1, end: 5 });
}

#[test]
fn surrogate_unicode_escape_is_replaced() {
    let (toks, diags) = lexer("\"a\\uD800b\"");
    assert_eq!(toks[0].0, Token::Str(s("a\u{FFFD}b")));
    assert_eq!(diags.len(), 1);
    assert_eq!(diags[0].kind, DiagnosticKind::InvalidUnicode);
}

#[test]
fn unknown_escape_is_reported_and_skipped() {
    let (toks, diags) = lexer("\"a\\qb\"");
    assert_eq!(toks[0].0, Token::Str(s("a\u{FFFD}qb")));
    assert_eq!(diags.len(), 1);
    assert_eq!(diags[0].kind, DiagnosticKind::InvalidEscape);
    assert_eq!(diags[0].span, Span { start: 2, end: 3 });
}

#[test]
fn unterminated_string_stops_at_newline() {
    let (toks, diags) = lexer("\"abc\n1");
    assert_eq!(toks[0].0, Token::Str(s("abc")));
    assert_eq!(toks[1].0, Token::Num(s("1")));
    assert_eq!(diags.len(), 1);
    assert_eq!(diags[0].kind, DiagnosticKind::UnterminatedString);
    assert_eq!(diags[0].span, Span { start: 0, end: 4 });
}

#[test]
fn operator_run_is_one_token() {
    assert_eq!(
        tokens("1<=2"),
        vec![Token::Num(s("1")), Token::Op(s("<=")), Token::Num(s("2"))]
    );
    assert_eq!(
        tokens("$a===$b"),
        vec![Token::Ident(s("$a")), Token::Op(s("===")), Token::Ident(s("$b"))]
    );
}

#[test]
fn numbers_take_fraction_and_exponent_only_when_complete() {
    assert_eq!(
        tokens("3.14e-2 7. 1e"),
        vec![
            Token::Num(s("3.14e-2")),
            Token::Num(s("7")),
            Token::Op(s(".")),
            Token::Num(s("1")),
            Token::Ident(s("e")),
        ]
    );
    assert_eq!(tokens("12E+3"), vec![Token::Num(s("12E+3"))]);
}

#[test]
fn keywords_are_never_identifiers() {
    assert_eq!(
        tokens("function if else elseif true false null while return for continue break fn $x"),
        vec![
            Token::Function,
            Token::If,
            Token::Else,
            Token::ElseIf,
            Token::Bool(true),
            Token::Bool(false),
            Token::Null,
            Token::While,
            Token::Return,
            Token::For,
            Token::Continue,
            Token::Break,
            Token::Ident(s("fn")),
            Token::Ident(s("$x")),
        ]
    );
}

#[test]
fn controls_are_single_tokens() {
    assert_eq!(
        tokens("(){}[];,?"),
        "(){}[];,?".chars().map(Token::Control).collect::<Vec<_>>()
    );
}

#[test]
fn comments_are_skipped() {
    assert_eq!(
        tokens("1 // one\n2 /* two\n */ 3"),
        vec![Token::Num(s("1")), Token::Num(s("2")), Token::Num(s("3"))]
    );
}

#[test]
fn unterminated_block_comment_is_reported() {
    let (toks, diags) = lexer("1 /* open");
    assert_eq!(toks.len(), 1);
    assert_eq!(diags.len(), 1);
    assert_eq!(diags[0].kind, DiagnosticKind::UnterminatedComment);
    assert_eq!(diags[0].span, Span { start: 2, end: 9 });
}

#[test]
fn unexpected_character_is_skipped() {
    let (toks, diags) = lexer("1 # 2");
    assert_eq!(toks.len(), 2);
    assert_eq!(toks[1].1, Span { start: 4, end: 5 });
    assert_eq!(diags.len(), 1);
    assert_eq!(diags[0].kind, DiagnosticKind::UnexpectedChar);
    assert_eq!(diags[0].severity, Severity::Error);
    assert_eq!(diags[0].span, Span { start: 2, end: 3 });
}

#[test]
fn spans_count_bytes_and_letters_are_unicode() {
    let (toks, diags) = lexer("é\u{00A0}1");
    assert!(diags.is_empty());
    assert_eq!(toks[0], (Token::Ident(s("é")), Span { start: 0, end: 2 }));
    assert_eq!(toks[1], (Token::Num(s("1")), Span { start: 4, end: 5 }));
}

#[test]
fn identifiers_take_letters_underscores_and_sigils() {
    assert_eq!(
        tokens("$a_1 ?int"),
        vec![
            Token::Ident(s("$a_")),
            Token::Num(s("1")),
            Token::Control('?'),
            Token::Ident(s("int")),
        ]
    );
}

#[test]
fn lexing_twice_gives_the_same_result() {
    let src = "function f(int $a) int { return $a + \"\\477\" # 1; }";
    assert_eq!(lexer(src), lexer(src));
}

#[test]
fn comment_and_ident_report_their_length() {
    let v: Vec<char> = "// a\nx".chars().collect();
    assert_eq!(comment(&v, 0), Some(4));
    let v: Vec<char> = "/* a */x".chars().collect();
    assert_eq!(comment(&v, 0), Some(6));
    let v: Vec<char> = "/* a".chars().collect();
    assert_eq!(comment(&v, 0), None);
    let v: Vec<char> = "while_x 1".chars().collect();
    assert_eq!(ident(&v, 0), (Token::Ident(s("while_x")), 6));
    let v: Vec<char> = "while(".chars().collect();
    assert_eq!(ident(&v, 0), (Token::While, 4));
}
