//! Properties of the lexer and the parser over all inputs of a given shape.
use vstd::prelude::*;

use crate::ast::BodyView;
use crate::diagnostic::Diagnostic;
use crate::parser::{recover_extra, stmt_at, stmts_at};
use crate::lexer::{
    all_digits, digit_val, digits_value, escape_at, is_hex, is_octal, lex_from, lex_spec,
    scan_str, simple_escape, span_of, step,
};
use crate::span::Span;
use crate::text::{char_of, is_scalar};
use crate::token::{Token, TokenView};

verus! {

/// The result of lexing a string literal whose only content is `c`.
pub open spec fn lone_str(s: Seq<char>, c: char) -> (Seq<(TokenView, Span)>, Seq<Diagnostic>) {
    (seq![(TokenView::Str(seq![c]), span_of(s, 0, s.len() as int))], seq![])
}

/// A string literal that holds one well-formed escape lexes to one string
/// token with exactly the escaped character, and no diagnostic.
proof fn lemma_escape_literal(s: Seq<char>, w: nat)
    requires
        s.len() == w + 3,
        s[0] == '"',
        s[1] == '\\',
        s[w + 2int] == '"',
        escape_at(s, 1).1 is None,
        escape_at(s, 1).2 == w,
    ensures
        lex_spec(s) == lone_str(s, escape_at(s, 1).0),
{
    let e = escape_at(s, 1);
    assert(scan_str(s, w + 2int) == (Seq::<char>::empty(), Seq::<Diagnostic>::empty(), 1nat, true));
    let r = scan_str(s, 1);
    assert(r.0 =~= seq![e.0]);
    assert(r.1 =~= Seq::<Diagnostic>::empty());
    assert(r.2 == w + 2);
    assert(r.3);
    let st = step(s, 0);
    assert(st.0 == Some(TokenView::Str(seq![e.0])));
    assert(st.2 == w + 2);
    assert(lex_from(s, 0, seq![], seq![]).0 =~= lone_str(s, e.0).0);
    assert(lex_from(s, 0, seq![], seq![]).1 =~= lone_str(s, e.0).1);
}

/// Each one-letter escape (`\\`, `\"`, `\n`, `\r`, `\t`, `\v`, `\e`, `\f`)
/// alone in a string literal lexes to exactly the character it stands for,
/// with no diagnostic.
pub proof fn lemma_simple_escape_round_trip(c: char)
    requires
        simple_escape(c) is Some,
    ensures
        lex_spec(seq!['"', '\\', c, '"']) == lone_str(seq!['"', '\\', c, '"'], simple_escape(c)->0),
{
    let s = seq!['"', '\\', c, '"'];
    assert(escape_at(s, 1) == (simple_escape(c)->0, None::<crate::diagnostic::DiagnosticKind>, 1nat));
    lemma_escape_literal(s, 1);
}

/// A three-digit octal escape up to `\377`, alone in a string literal, lexes
/// to exactly the character with that code, with no diagnostic.
pub proof fn lemma_octal_escape_round_trip(a: char, b: char, c: char)
    requires
        is_octal(a),
        is_octal(b),
        is_octal(c),
        64 * digit_val(a) + 8 * digit_val(b) + digit_val(c) <= 0xFF,
    ensures
        lex_spec(seq!['"', '\\', a, b, c, '"']) == lone_str(
            seq!['"', '\\', a, b, c, '"'],
            char_of((64 * digit_val(a) + 8 * digit_val(b) + digit_val(c)) as u32),
        ),
{
    let s = seq!['"', '\\', a, b, c, '"'];
    assert forall|m: int| 2 <= m < 5 implies is_octal(#[trigger] s[m]) by {
        assert(m == 2 || m == 3 || m == 4);
    }
    assert(all_digits(s, 2, 3, 8));
    reveal_with_fuel(digits_value, 4);
    assert(simple_escape(a) is None);
    lemma_escape_literal(s, 3);
}

/// A two-digit hexadecimal escape `\xHH`, alone in a string literal, lexes
/// to exactly the character with that code, with no diagnostic.
pub proof fn lemma_hex_escape_round_trip(a: char, b: char)
    requires
        is_hex(a),
        is_hex(b),
    ensures
        lex_spec(seq!['"', '\\', 'x', a, b, '"']) == lone_str(
            seq!['"', '\\', 'x', a, b, '"'],
            char_of((16 * digit_val(a) + digit_val(b)) as u32),
        ),
{
    let s = seq!['"', '\\', 'x', a, b, '"'];
    assert forall|m: int| 3 <= m < 5 implies is_hex(#[trigger] s[m]) by {
        assert(m == 3 || m == 4);
    }
    assert(all_digits(s, 3, 2, 16));
    assert(!all_digits(s, 2, 3, 8)) by {
        assert(!is_octal(s[2]));
    }
    reveal_with_fuel(digits_value, 3);
    lemma_escape_literal(s, 3);
}

/// A four-digit escape `\uHHHH` that names a character, alone in a string
/// literal, lexes to exactly that character, with no diagnostic.
pub proof fn lemma_unicode_escape_round_trip(a: char, b: char, c: char, d: char)
    requires
        is_hex(a),
        is_hex(b),
        is_hex(c),
        is_hex(d),
        is_scalar(
            (4096 * digit_val(a) + 256 * digit_val(b) + 16 * digit_val(c) + digit_val(d)) as u32,
        ),
    ensures
        lex_spec(seq!['"', '\\', 'u', a, b, c, d, '"']) == lone_str(
            seq!['"', '\\', 'u', a, b, c, d, '"'],
            char_of(
                (4096 * digit_val(a) + 256 * digit_val(b) + 16 * digit_val(c) + digit_val(d)) as u32,
            ),
        ),
{
    let s = seq!['"', '\\', 'u', a, b, c, d, '"'];
    assert forall|m: int| 3 <= m < 7 implies is_hex(#[trigger] s[m]) by {
        assert(m == 3 || m == 4 || m == 5 || m == 6);
    }
    assert(all_digits(s, 3, 4, 16));
    assert(!all_digits(s, 2, 3, 8)) by {
        assert(!is_octal(s[2]));
    }
    reveal_with_fuel(digits_value, 5);
    lemma_escape_literal(s, 5);
}

/// Lexing keeps no state between calls: two lexings of one text give the
/// same tokens, spans and diagnostics.
pub proof fn lemma_lexing_is_deterministic(
    src: Seq<char>,
    first: (Seq<(TokenView, Span)>, Seq<Diagnostic>),
    second: (Seq<(TokenView, Span)>, Seq<Diagnostic>),
)
    requires
        first == lex_spec(src),
        second == lex_spec(src),
    ensures
        first == second,
{
}

/// Inside a block, a statement that fails leaves an `Error` in its place and
/// its diagnostic among the block's, and reading goes on after it, so later
/// statements are still read and later failures still reported.
pub proof fn lemma_failed_statement_recovers(
    toks: Seq<(Token, Span)>,
    p: int,
    acc: Seq<BodyView>,
    ds: Seq<Diagnostic>,
)
    requires
        0 <= p < toks.len(),
        toks[p].0 != Token::Control('}'),
        stmt_at(toks, p) is Err,
        p + 1 + recover_extra(toks, p) < toks.len(),
    ensures
        stmts_at(toks, p, acc, ds) == stmts_at(
            toks,
            p + 1 + recover_extra(toks, p),
            acc.push(BodyView::Error),
            ds.push(stmt_at(toks, p)->Err_0),
        ),
{
}

/// Inside a block, a statement that parses is kept, with the diagnostics of
/// the statements that failed in its own blocks, and reading goes on after it.
pub proof fn lemma_parsed_statement_kept(
    toks: Seq<(Token, Span)>,
    p: int,
    acc: Seq<BodyView>,
    ds: Seq<Diagnostic>,
)
    requires
        0 <= p < toks.len(),
        toks[p].0 != Token::Control('}'),
        stmt_at(toks, p) is Ok,
        p + 1 + stmt_at(toks, p)->Ok_0.2 < toks.len(),
    ensures
        stmts_at(toks, p, acc, ds) == stmts_at(
            toks,
            p + 1 + stmt_at(toks, p)->Ok_0.2,
            acc.push(stmt_at(toks, p)->Ok_0.0),
            ds + stmt_at(toks, p)->Ok_0.1,
        ),
{
}

} // verus!
