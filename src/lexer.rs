//! Turns source text into tokens and lexical diagnostics.
use vstd::prelude::*;

use crate::diagnostic::{Diagnostic, DiagnosticKind, Severity};
use crate::span::Span;
use crate::text::{
    alphabetic, char_of, chars_of, code, decode_scalar, is_alphabetic, is_scalar, is_whitespace,
    string_of, whitespace,
};
use crate::token::{keyword, keyword_of, Token, TokenView};

verus! {

/// The number of bytes that UTF-8 takes for `c`.
pub open spec fn utf8_len(c: char) -> int {
    if code(c) < 0x80 {
        1
    } else if code(c) < 0x800 {
        2
    } else if code(c) < 0x10000 {
        3
    } else {
        4
    }
}

/// The byte offset at which the character with index `i` starts.
pub open spec fn byte_at(s: Seq<char>, i: int) -> int
    decreases i,
{
    if i <= 0 {
        0
    } else {
        byte_at(s, i - 1) + utf8_len(s[i - 1])
    }
}

/// The byte span of the characters with indices `i .. j`.
pub open spec fn span_of(s: Seq<char>, i: int, j: int) -> Span {
    Span { start: byte_at(s, i) as usize, end: byte_at(s, j) as usize }
}

pub open spec fn is_digit(c: char) -> bool {
    '0' <= c <= '9'
}

pub open spec fn is_octal(c: char) -> bool {
    '0' <= c <= '7'
}

pub open spec fn is_hex(c: char) -> bool {
    is_digit(c) || 'a' <= c <= 'f' || 'A' <= c <= 'F'
}

/// The value of a hexadecimal (and so also octal or decimal) digit.
pub open spec fn digit_val(c: char) -> int {
    if is_digit(c) {
        code(c) - code('0')
    } else if 'a' <= c <= 'f' {
        code(c) - code('a') + 10
    } else {
        code(c) - code('A') + 10
    }
}

pub open spec fn is_op_char(c: char) -> bool {
    c == '+' || c == '-' || c == '*' || c == '/' || c == '.' || c == '=' || c == '!' || c == '<'
        || c == '>'
}

/// The characters that are tokens on their own: `()[]{};,`, and `?`, which
/// stands before a type name to make it nullable.
pub open spec fn is_control_char(c: char) -> bool {
    c == '(' || c == ')' || c == '[' || c == ']' || c == '{' || c == '}' || c == ';' || c == ','
        || c == '?'
}

pub open spec fn is_ident_char(c: char) -> bool {
    c == '_' || c == '$' || alphabetic(c)
}

/// The classes of characters that form runs.
#[derive(Debug, Clone, Copy, PartialEq, Eq, Structural)]
pub enum CharClass {
    Digit,
    Operator,
    Ident,
}

pub open spec fn in_class(c: char, class: CharClass) -> bool {
    match class {
        CharClass::Digit => is_digit(c),
        CharClass::Operator => is_op_char(c),
        CharClass::Ident => is_ident_char(c),
    }
}

/// The length of the run of characters of `class` that starts at `j`.
pub open spec fn run_of(s: Seq<char>, j: int, class: CharClass) -> nat
    decreases s.len() - j,
{
    if 0 <= j < s.len() && in_class(s[j], class) {
        1 + run_of(s, j + 1, class)
    } else {
        0
    }
}

/// The length of the numeric literal that starts with the digit at `i`:
/// digits, then `.` and digits, then `e` or `E`, a sign and digits; each of
/// the last two parts only where it is complete.
pub open spec fn number_len(s: Seq<char>, i: int) -> nat {
    let d = run_of(s, i, CharClass::Digit);
    let fd = run_of(s, i + d + 1, CharClass::Digit);
    let f: nat = if i + d < s.len() && s[i + d] == '.' && fd > 0 {
        1 + fd
    } else {
        0
    };
    let k = i + d + f;
    let sg: nat = if k + 1 < s.len() && (s[k + 1] == '+' || s[k + 1] == '-') {
        1
    } else {
        0
    };
    let ed = run_of(s, k + 1 + sg, CharClass::Digit);
    let e: nat = if k < s.len() && (s[k] == 'e' || s[k] == 'E') && ed > 0 {
        1 + sg + ed
    } else {
        0
    };
    d + f + e
}

/// The character that a one-letter escape stands for.
pub open spec fn simple_escape(c: char) -> Option<char> {
    if c == '\\' {
        Some('\\')
    } else if c == '"' {
        Some('"')
    } else if c == 'n' {
        Some('\n')
    } else if c == 'r' {
        Some('\r')
    } else if c == 't' {
        Some('\t')
    } else if c == 'v' {
        Some('\x0B')
    } else if c == 'e' {
        Some('\x1B')
    } else if c == 'f' {
        Some('\x0C')
    } else {
        None
    }
}

/// The value of the `n` hexadecimal digits that start at `k`.
pub open spec fn digits_value(s: Seq<char>, k: int, n: nat, radix: int) -> int
    decreases n,
{
    if n == 0 {
        0
    } else {
        digits_value(s, k, (n - 1) as nat, radix) * radix + digit_val(s[k + n - 1])
    }
}

/// Whether the `n` characters from `k` are all digits of `radix` (8 or 16).
pub open spec fn all_digits(s: Seq<char>, k: int, n: nat, radix: int) -> bool {
    k + n <= s.len() && forall|m: int|
        k <= m < k + n ==> if radix == 8 {
            is_octal(#[trigger] s[m])
        } else {
            is_hex(s[m])
        }
}

pub const REPLACEMENT: char = '\u{FFFD}';

/// The escape whose backslash stands at `j`: the character it gives, the
/// problem with it if any, and how many characters follow the backslash.
pub open spec fn escape_at(s: Seq<char>, j: int) -> (char, Option<DiagnosticKind>, nat) {
    let k = j + 1;
    if k < s.len() && simple_escape(s[k]) is Some {
        (simple_escape(s[k])->0, None, 1)
    } else if all_digits(s, k, 3, 8) {
        let v = digits_value(s, k, 3, 8);
        if v > 0xFF {
            (REPLACEMENT, Some(DiagnosticKind::OctalOutOfRange), 3)
        } else {
            (char_of(v as u32), None, 3)
        }
    } else if k < s.len() && s[k] == 'x' && all_digits(s, k + 1, 2, 16) {
        (char_of(digits_value(s, k + 1, 2, 16) as u32), None, 3)
    } else if k < s.len() && s[k] == 'u' && all_digits(s, k + 1, 4, 16) {
        let v = digits_value(s, k + 1, 4, 16);
        if is_scalar(v as u32) {
            (char_of(v as u32), None, 5)
        } else {
            (REPLACEMENT, Some(DiagnosticKind::InvalidUnicode), 5)
        }
    } else {
        (REPLACEMENT, Some(DiagnosticKind::InvalidEscape), 0)
    }
}

/// Reads the body of a string literal from `j`, after its opening quote: the
/// decoded characters, the diagnostics of its escapes, how many characters it
/// takes (with the closing quote), and whether the closing quote was found.
/// A newline or the end of input ends an unterminated string.
pub open spec fn scan_str(s: Seq<char>, j: int) -> (Seq<char>, Seq<Diagnostic>, nat, bool)
    decreases s.len() - j,
{
    if j < 0 || j >= s.len() || s[j] == '\n' {
        (seq![], seq![], 0, false)
    } else if s[j] == '"' {
        (seq![], seq![], 1, true)
    } else if s[j] == '\\' {
        let e = escape_at(s, j);
        let rest = scan_str(s, j + 1 + e.2);
        let ds = match e.1 {
            Some(k) => seq![
                Diagnostic { span: span_of(s, j, j + 1 + e.2), severity: Severity::Error, kind: k },
            ],
            None => seq![],
        };
        (seq![e.0] + rest.0, ds + rest.1, 1 + e.2 + rest.2, rest.3)
    } else {
        let rest = scan_str(s, j + 1);
        (seq![s[j]] + rest.0, rest.1, 1 + rest.2, rest.3)
    }
}

/// How many characters from `j` a line comment still takes: up to and with
/// the next newline, or to the end.
pub open spec fn line_rest(s: Seq<char>, j: int) -> nat
    decreases s.len() - j,
{
    if j < 0 || j >= s.len() {
        0
    } else if s[j] == '\n' {
        1
    } else {
        1 + line_rest(s, j + 1)
    }
}

/// How many characters from `j` a block comment still takes, up to and with
/// the first `*/`; `None` when no `*/` follows.
pub open spec fn block_rest(s: Seq<char>, j: int) -> Option<nat>
    decreases s.len() - j,
{
    if j < 0 || j + 1 >= s.len() {
        None
    } else if s[j] == '*' && s[j + 1] == '/' {
        Some(2)
    } else {
        match block_rest(s, j + 1) {
            Some(n) => Some(n + 1),
            None => None,
        }
    }
}

/// The token for the word `w`: its keyword, or else an identifier.
pub open spec fn ident_token(w: Seq<char>) -> TokenView {
    match keyword_of(w) {
        Some(k) => k,
        None => TokenView::Ident(w),
    }
}

/// One step of the lexer at index `i`: the token read there, if any, the
/// diagnostics, and how many characters after the one at `i` it takes.
pub open spec fn step(s: Seq<char>, i: int) -> (Option<TokenView>, Seq<Diagnostic>, nat) {
    let c = s[i];
    let n = s.len() as int;
    if is_digit(c) {
        let len = number_len(s, i);
        (Some(TokenView::Num(s.subrange(i, i + len))), seq![], (len - 1) as nat)
    } else if c == '"' {
        let r = scan_str(s, i + 1);
        let ds = if r.3 {
            r.1
        } else {
            r.1.push(
                Diagnostic {
                    span: span_of(s, i, i + 1 + r.2),
                    severity: Severity::Error,
                    kind: DiagnosticKind::UnterminatedString,
                },
            )
        };
        (Some(TokenView::Str(r.0)), ds, r.2)
    } else if c == '/' && i + 1 < n && s[i + 1] == '/' {
        (None, seq![], 1 + line_rest(s, i + 2))
    } else if c == '/' && i + 1 < n && s[i + 1] == '*' {
        match block_rest(s, i + 2) {
            Some(m) => (None, seq![], 1 + m),
            None => (
                None,
                seq![
                    Diagnostic {
                        span: span_of(s, i, n),
                        severity: Severity::Error,
                        kind: DiagnosticKind::UnterminatedComment,
                    },
                ],
                (n - i - 1) as nat,
            ),
        }
    } else if is_op_char(c) {
        let m = run_of(s, i + 1, CharClass::Operator);
        (Some(TokenView::Op(s.subrange(i, i + 1 + m))), seq![], m)
    } else if is_control_char(c) {
        (Some(TokenView::Control(c)), seq![], 0)
    } else if is_ident_char(c) {
        let m = run_of(s, i + 1, CharClass::Ident);
        (Some(ident_token(s.subrange(i, i + 1 + m))), seq![], m)
    } else if whitespace(c) {
        (None, seq![], 0)
    } else {
        (
            None,
            seq![
                Diagnostic {
                    span: span_of(s, i, i + 1),
                    severity: Severity::Error,
                    kind: DiagnosticKind::UnexpectedChar,
                },
            ],
            0,
        )
    }
}

/// Lexes from index `i` on, after `toks` and `diags` were produced.
pub open spec fn lex_from(
    s: Seq<char>,
    i: int,
    toks: Seq<(TokenView, Span)>,
    diags: Seq<Diagnostic>,
) -> (Seq<(TokenView, Span)>, Seq<Diagnostic>)
    decreases s.len() - i,
{
    if i < 0 || i >= s.len() {
        (toks, diags)
    } else {
        let st = step(s, i);
        let next = i + 1 + st.2;
        let toks2 = match st.0 {
            Some(t) => toks.push((t, span_of(s, i, next))),
            None => toks,
        };
        if next >= s.len() {
            (toks2, diags + st.1)
        } else {
            lex_from(s, next, toks2, diags + st.1)
        }
    }
}

/// The tokens, each with its byte span, and the diagnostics of source text `s`.
pub open spec fn lex_spec(s: Seq<char>) -> (Seq<(TokenView, Span)>, Seq<Diagnostic>) {
    lex_from(s, 0, seq![], seq![])
}

/// The token views of lexed tokens, with their spans.
pub open spec fn views(v: Seq<(Token, Span)>) -> Seq<(TokenView, Span)> {
    v.map_values(|p: (Token, Span)| (p.0@, p.1))
}

pub open spec fn opt_view(t: Option<Token>) -> Option<TokenView> {
    match t {
        Some(t) => Some(t@),
        None => None,
    }
}

/// The byte offsets `offs` of every character index of `s`, and of its end.
pub open spec fn offsets_of(s: Seq<char>, offs: Seq<usize>) -> bool {
    &&& offs.len() == s.len() + 1
    &&& forall|k: int| 0 <= k <= s.len() ==> #[trigger] offs[k] as int == byte_at(s, k)
    &&& forall|a: int, b: int| 0 <= a <= b <= s.len() ==> #[trigger] offs[a] <= #[trigger] offs[b]
}

/// Every span in `v` is well formed.
pub open spec fn spans_wf(v: Seq<Diagnostic>) -> bool {
    forall|k: int| 0 <= k < v.len() ==> (#[trigger] v[k]).span.wf()
}

fn utf8_width(c: char) -> (r: usize)
    ensures
        r as int == utf8_len(c),
{
    let v = c as u32;
    if v < 0x80 {
        1
    } else if v < 0x800 {
        2
    } else if v < 0x10000 {
        3
    } else {
        4
    }
}

fn byte_offsets(s: &Vec<char>) -> (r: Vec<usize>)
    requires
        s.len() <= usize::MAX / 4,
    ensures
        offsets_of(s@, r@),
{
    let mut r: Vec<usize> = Vec::new();
    r.push(0);
    let mut off: usize = 0;
    let mut i: usize = 0;
    while i < s.len()
        invariant
            s.len() <= usize::MAX / 4,
            i <= s.len(),
            r@.len() == i + 1,
            off as int == byte_at(s@, i as int),
            off <= 4 * i,
            forall|k: int| 0 <= k <= i ==> #[trigger] r@[k] as int == byte_at(s@, k),
            forall|a: int, b: int| 0 <= a <= b <= i ==> #[trigger] r@[a] <= #[trigger] r@[b],
            r@[i as int] == off,
        decreases s.len() - i,
    {
        off = off + utf8_width(s[i]);
        i = i + 1;
        r.push(off);
    }
    r
}

fn span_at(s: &Vec<char>, offs: &Vec<usize>, a: usize, b: usize) -> (r: Span)
    requires
        offsets_of(s@, offs@),
        a <= b <= s.len(),
    ensures
        r == span_of(s@, a as int, b as int),
        r.wf(),
{
    Span { start: offs[a], end: offs[b] }
}

fn is_in_class(c: char, class: CharClass) -> (r: bool)
    ensures
        r == in_class(c, class),
{
    match class {
        CharClass::Digit => '0' <= c && c <= '9',
        CharClass::Operator => c == '+' || c == '-' || c == '*' || c == '/' || c == '.' || c
            == '=' || c == '!' || c == '<' || c == '>',
        CharClass::Ident => c == '_' || c == '$' || is_alphabetic(c),
    }
}

fn run_len(s: &Vec<char>, j: usize, class: CharClass) -> (r: usize)
    requires
        j <= s.len(),
    ensures
        r == run_of(s@, j as int, class),
        j + r <= s.len(),
{
    let mut k = j;
    while k < s.len() && is_in_class(s[k], class)
        invariant
            j <= k <= s.len(),
            run_of(s@, j as int, class) == (k - j) + run_of(s@, k as int, class),
        decreases s.len() - k,
    {
        k = k + 1;
    }
    k - j
}

fn number_length(s: &Vec<char>, i: usize) -> (r: usize)
    requires
        i < s.len(),
        is_digit(s@[i as int]),
    ensures
        r == number_len(s@, i as int),
        1 <= r,
        i + r <= s.len(),
{
    let n = s.len();
    let d = run_len(s, i, CharClass::Digit);
    let mut f: usize = 0;
    if i + d < n && s[i + d] == '.' {
        let fd = run_len(s, i + d + 1, CharClass::Digit);
        if fd > 0 {
            f = 1 + fd;
        }
    }
    let k = i + d + f;
    let mut e: usize = 0;
    if k < n && (s[k] == 'e' || s[k] == 'E') {
        let sg: usize = if k + 1 < n && (s[k + 1] == '+' || s[k + 1] == '-') {
            1
        } else {
            0
        };
        let ed = run_len(s, k + 1 + sg, CharClass::Digit);
        if ed > 0 {
            e = 1 + sg + ed;
        }
    }
    d + f + e
}

fn digit_value(c: char) -> (r: u32)
    requires
        is_hex(c),
    ensures
        r as int == digit_val(c),
        r < 16,
{
    if '0' <= c && c <= '9' {
        (c as u32) - ('0' as u32)
    } else if 'a' <= c && c <= 'f' {
        (c as u32) - ('a' as u32) + 10
    } else {
        (c as u32) - ('A' as u32) + 10
    }
}

pub open spec fn pow_of(radix: int, n: nat) -> int
    decreases n,
{
    if n == 0 {
        1
    } else {
        radix * pow_of(radix, (n - 1) as nat)
    }
}

fn has_digits(s: &Vec<char>, k: usize, n: usize, radix: u32) -> (r: bool)
    requires
        radix == 8 || radix == 16,
        k <= s.len(),
        n <= 4,
    ensures
        r == all_digits(s@, k as int, n as nat, radix as int),
{
    if n > s.len() - k {
        return false;
    }
    let mut m = k;
    while m < k + n
        invariant
            k <= m <= k + n <= s.len(),
            radix == 8 || radix == 16,
            forall|q: int|
                k <= q < m ==> if radix == 8 {
                    is_octal(#[trigger] s@[q])
                } else {
                    is_hex(s@[q])
                },
        decreases k + n - m,
    {
        let c = s[m];
        let ok = if radix == 8 {
            '0' <= c && c <= '7'
        } else {
            ('0' <= c && c <= '9') || ('a' <= c && c <= 'f') || ('A' <= c && c <= 'F')
        };
        if !ok {
            return false;
        }
        m = m + 1;
    }
    true
}

fn read_digits(s: &Vec<char>, k: usize, n: usize, radix: u32) -> (r: u32)
    requires
        radix == 8 || radix == 16,
        n <= 4,
        all_digits(s@, k as int, n as nat, radix as int),
    ensures
        r as int == digits_value(s@, k as int, n as nat, radix as int),
{
    let mut v: u32 = 0;
    let mut m: usize = 0;
    while m < n
        invariant
            radix == 8 || radix == 16,
            n <= 4,
            m <= n,
            k + n <= s.len(),
            all_digits(s@, k as int, n as nat, radix as int),
            v as int == digits_value(s@, k as int, m as nat, radix as int),
            0 <= v < pow_of(16, m as nat),
        decreases n - m,
    {
        let c = s[k + m];
        assert(is_hex(c)) by {
            assert(k <= k + m < k + n);
        }
        let d = digit_value(c);
        proof {
            let p = pow_of(16, m as nat);
            assert(d < radix) by {
                if radix == 8 {
                    assert(is_octal(s@[k + m]));
                }
            }
            assert(v * radix + d < p * 16) by (nonlinear_arith)
                requires
                    0 <= v < p,
                    d < radix,
                    radix <= 16,
            ;
            assert(pow_of(16, (m + 1) as nat) == 16 * p);
            assert(p <= 4096) by {
                reveal_with_fuel(pow_of, 4);
                assert(m == 0 || m == 1 || m == 2 || m == 3);
            }
        }
        v = v * radix + d;
        m = m + 1;
    }
    v
}

fn simple_escape_of(c: char) -> (r: Option<char>)
    ensures
        r == simple_escape(c),
{
    if c == '\\' {
        Some('\\')
    } else if c == '"' {
        Some('"')
    } else if c == 'n' {
        Some('\n')
    } else if c == 'r' {
        Some('\r')
    } else if c == 't' {
        Some('\t')
    } else if c == 'v' {
        Some('\x0B')
    } else if c == 'e' {
        Some('\x1B')
    } else if c == 'f' {
        Some('\x0C')
    } else {
        None
    }
}

/// Decodes the escape whose backslash stands at `j`.
fn read_escape(s: &Vec<char>, j: usize) -> (r: (char, Option<DiagnosticKind>, usize))
    requires
        j < s.len(),
    ensures
        (r.0, r.1, r.2 as nat) == escape_at(s@, j as int),
        j + 1 + r.2 <= s.len(),
{
    let k = j + 1;
    let n = s.len();
    if k < n {
        if let Some(e) = simple_escape_of(s[k]) {
            return (e, None, 1);
        }
    }
    if has_digits(s, k, 3, 8) {
        let v = read_digits(s, k, 3, 8);
        if v > 0xFF {
            return (REPLACEMENT, Some(DiagnosticKind::OctalOutOfRange), 3);
        }
        // Every code below 0x100 names a character, so the second arm is
        // never taken.
        return match decode_scalar(v) {
            Some(c) => (c, None, 3),
            None => (REPLACEMENT, Some(DiagnosticKind::OctalOutOfRange), 3),
        };
    }
    if k < n && s[k] == 'x' && has_digits(s, k + 1, 2, 16) {
        let v = read_digits(s, k + 1, 2, 16);
        proof {
            reveal_with_fuel(digits_value, 3);
        }
        // Two hexadecimal digits stay below 0x100, so the second arm is
        // never taken.
        return match decode_scalar(v) {
            Some(c) => (c, None, 3),
            None => (REPLACEMENT, Some(DiagnosticKind::InvalidUnicode), 3),
        };
    }
    if k < n && s[k] == 'u' && has_digits(s, k + 1, 4, 16) {
        let v = read_digits(s, k + 1, 4, 16);
        return match decode_scalar(v) {
            Some(c) => (c, None, 5),
            None => (REPLACEMENT, Some(DiagnosticKind::InvalidUnicode), 5),
        };
    }
    (REPLACEMENT, Some(DiagnosticKind::InvalidEscape), 0)
}

/// Reads the body of a string literal from `j0`, after its opening quote.
fn scan_string(s: &Vec<char>, offs: &Vec<usize>, j0: usize) -> (r: (
    Vec<char>,
    Vec<Diagnostic>,
    usize,
    bool,
))
    requires
        offsets_of(s@, offs@),
        j0 <= s.len(),
    ensures
        (r.0@, r.1@, r.2 as nat, r.3) == scan_str(s@, j0 as int),
        j0 + r.2 <= s.len(),
        spans_wf(r.1@),
{
    let mut out: Vec<char> = Vec::new();
    let mut ds: Vec<Diagnostic> = Vec::new();
    let mut j = j0;
    loop
        invariant
            j0 <= j <= s.len(),
            offsets_of(s@, offs@),
            spans_wf(ds@),
            scan_str(s@, j0 as int) == (
                out@ + scan_str(s@, j as int).0,
                ds@ + scan_str(s@, j as int).1,
                (j - j0) as nat + scan_str(s@, j as int).2,
                scan_str(s@, j as int).3,
            ),
        decreases s.len() - j,
    {
        if j >= s.len() || s[j] == '\n' {
            assert(out@ + seq![] =~= out@);
            assert(ds@ + seq![] =~= ds@);
            return (out, ds, j - j0, false);
        }
        if s[j] == '"' {
            assert(out@ + seq![] =~= out@);
            assert(ds@ + seq![] =~= ds@);
            return (out, ds, j - j0 + 1, true);
        }
        let ghost out0 = out@;
        let ghost ds0 = ds@;
        if s[j] == '\\' {
            let e = read_escape(s, j);
            let next = j + 1 + e.2;
            let ghost rest = scan_str(s@, next as int);
            out.push(e.0);
            assert(out0 + (seq![e.0] + rest.0) =~= out@ + rest.0);
            match e.1 {
                Some(kind) => {
                    let d = Diagnostic {
                        span: span_at(s, offs, j, next),
                        severity: Severity::Error,
                        kind,
                    };
                    ds.push(d);
                    assert(ds0 + (seq![d] + rest.1) =~= ds@ + rest.1);
                },
                None => {
                    assert(ds0 + (seq![] + rest.1) =~= ds@ + rest.1);
                },
            }
            j = next;
        } else {
            let ghost rest = scan_str(s@, j + 1);
            out.push(s[j]);
            assert(out0 + (seq![s@[j as int]] + rest.0) =~= out@ + rest.0);
            j = j + 1;
        }
    }
}

fn line_rest_len(s: &Vec<char>, j: usize) -> (r: usize)
    requires
        j <= s.len(),
    ensures
        r == line_rest(s@, j as int),
        j + r <= s.len(),
{
    let mut k = j;
    while k < s.len() && s[k] != '\n'
        invariant
            j <= k <= s.len(),
            line_rest(s@, j as int) == (k - j) + line_rest(s@, k as int),
        decreases s.len() - k,
    {
        k = k + 1;
    }
    if k < s.len() {
        k - j + 1
    } else {
        k - j
    }
}

fn block_rest_len(s: &Vec<char>, j: usize) -> (r: Option<usize>)
    requires
        j <= s.len(),
    ensures
        r matches Some(m) ==> block_rest(s@, j as int) == Some(m as nat) && j + m <= s.len(),
        r is None ==> block_rest(s@, j as int) is None,
{
    let mut k = j;
    while k < s.len() && k + 1 < s.len() && !(s[k] == '*' && s[k + 1] == '/')
        invariant
            j <= k <= s.len(),
            block_rest(s@, j as int) == match block_rest(s@, k as int) {
                Some(n) => Some(n + (k - j) as nat),
                None => None,
            },
        decreases s.len() - k,
    {
        k = k + 1;
    }
    if k < s.len() && k + 1 < s.len() {
        Some(k - j + 2)
    } else {
        None
    }
}

/// The characters with indices `a .. b`, as text.
fn text_of(s: &Vec<char>, a: usize, b: usize) -> (r: String)
    requires
        a <= b <= s.len(),
    ensures
        r@ == s@.subrange(a as int, b as int),
{
    let mut v: Vec<char> = Vec::new();
    let mut k = a;
    while k < b
        invariant
            a <= k <= b <= s.len(),
            v@ == s@.subrange(a as int, k as int),
        decreases b - k,
    {
        v.push(s[k]);
        k = k + 1;
        assert(v@ =~= s@.subrange(a as int, k as int));
    }
    string_of(&v)
}

fn chars_in(s: &Vec<char>, a: usize, b: usize) -> (r: Vec<char>)
    requires
        a <= b <= s.len(),
    ensures
        r@ == s@.subrange(a as int, b as int),
{
    let mut v: Vec<char> = Vec::new();
    let mut k = a;
    while k < b
        invariant
            a <= k <= b <= s.len(),
            v@ == s@.subrange(a as int, k as int),
        decreases b - k,
    {
        v.push(s[k]);
        k = k + 1;
        assert(v@ =~= s@.subrange(a as int, k as int));
    }
    v
}

/// Reads the comment that starts at `i` with `//` or `/*`: how many
/// characters after the one at `i` it takes. A line comment goes through its
/// newline; a block comment goes through the first `*/`, and without one it
/// is `None`.
pub fn comment(s: &Vec<char>, i: usize) -> (r: Option<usize>)
    requires
        i + 1 < s.len(),
        s@[i as int] == '/',
        s@[i + 1] == '/' || s@[i + 1] == '*',
    ensures
        s@[i + 1] == '/' ==> (r matches Some(m) && m == 1 + line_rest(s@, i + 2)),
        s@[i + 1] == '*' ==> (r is None <==> block_rest(s@, i + 2) is None),
        s@[i + 1] == '*' ==> (r matches Some(m) ==> block_rest(s@, i + 2) == Some((m - 1) as nat) && m >= 1),
        r matches Some(m) ==> i + 1 + m <= s.len(),
{
    if s[i + 1] == '/' {
        Some(1 + line_rest_len(s, i + 2))
    } else {
        match block_rest_len(s, i + 2) {
            Some(m) => Some(1 + m),
            None => None,
        }
    }
}

/// Reads the identifier or keyword that starts at `i`: letters, `_` and `$`.
/// Gives the token and how many characters after the one at `i` it takes.
pub fn ident(s: &Vec<char>, i: usize) -> (r: (Token, usize))
    requires
        i < s.len(),
        is_ident_char(s@[i as int]),
    ensures
        r.1 == run_of(s@, i + 1, CharClass::Ident),
        r.0@ == ident_token(s@.subrange(i as int, i + 1 + r.1)),
        i + 1 + r.1 <= s.len(),
{
    let m = run_len(s, i + 1, CharClass::Ident);
    let w = chars_in(s, i, i + 1 + m);
    match keyword(&w) {
        Some(k) => (k, m),
        None => (Token::Ident(string_of(&w)), m),
    }
}

/// One step of the lexer at index `i`.
fn lex_step(s: &Vec<char>, offs: &Vec<usize>, i: usize) -> (r: (Option<Token>, Vec<Diagnostic>, usize))
    requires
        offsets_of(s@, offs@),
        i < s.len(),
    ensures
        opt_view(r.0) == step(s@, i as int).0,
        r.1@ == step(s@, i as int).1,
        r.2 as nat == step(s@, i as int).2,
        i + 1 + r.2 <= s.len(),
        spans_wf(r.1@),
{
    let n = s.len();
    let c = s[i];
    if '0' <= c && c <= '9' {
        let len = number_length(s, i);
        (Some(Token::Num(text_of(s, i, i + len))), Vec::new(), len - 1)
    } else if c == '"' {
        let (body, mut ds, used, closed) = scan_string(s, offs, i + 1);
        if !closed {
            ds.push(
                Diagnostic {
                    span: span_at(s, offs, i, i + 1 + used),
                    severity: Severity::Error,
                    kind: DiagnosticKind::UnterminatedString,
                },
            );
        }
        (Some(Token::Str(string_of(&body))), ds, used)
    } else if c == '/' && i + 1 < n && (s[i + 1] == '/' || s[i + 1] == '*') {
        match comment(s, i) {
            Some(m) => (None, Vec::new(), m),
            None => {
                let mut ds: Vec<Diagnostic> = Vec::new();
                ds.push(
                    Diagnostic {
                        span: span_at(s, offs, i, n),
                        severity: Severity::Error,
                        kind: DiagnosticKind::UnterminatedComment,
                    },
                );
                (None, ds, n - i - 1)
            },
        }
    } else if is_in_class(c, CharClass::Operator) {
        let m = run_len(s, i + 1, CharClass::Operator);
        (Some(Token::Op(text_of(s, i, i + 1 + m))), Vec::new(), m)
    } else if c == '(' || c == ')' || c == '[' || c == ']' || c == '{' || c == '}' || c == ';'
        || c == ',' || c == '?' {
        (Some(Token::Control(c)), Vec::new(), 0)
    } else if is_in_class(c, CharClass::Ident) {
        let (t, m) = ident(s, i);
        (Some(t), Vec::new(), m)
    } else if is_whitespace(c) {
        (None, Vec::new(), 0)
    } else {
        let mut ds: Vec<Diagnostic> = Vec::new();
        ds.push(
            Diagnostic {
                span: span_at(s, offs, i, i + 1),
                severity: Severity::Error,
                kind: DiagnosticKind::UnexpectedChar,
            },
        );
        (None, ds, 0)
    }
}

/// Lexes a whole source text into tokens, each with its byte span, and the
/// lexical diagnostics. Whitespace and comments separate tokens; a character
/// that starts no token is reported and skipped, so the rest is still lexed.
pub fn lexer(src: &str) -> (r: (Vec<(Token, Span)>, Vec<Diagnostic>))
    requires
        src@.len() <= usize::MAX / 4,
    ensures
        views(r.0@) == lex_spec(src@).0,
        r.1@ == lex_spec(src@).1,
        forall|k: int| 0 <= k < r.0@.len() ==> (#[trigger] r.0@[k]).1.wf(),
        spans_wf(r.1@),
{
    let s = chars_of(src);
    let offs = byte_offsets(&s);
    let mut toks: Vec<(Token, Span)> = Vec::new();
    let mut diags: Vec<Diagnostic> = Vec::new();
    let mut i: usize = 0;
    assert(views(toks@) =~= seq![]);
    while i < s.len()
        invariant
            s@ == src@,
            offsets_of(s@, offs@),
            i <= s.len(),
            lex_from(s@, i as int, views(toks@), diags@) == lex_spec(src@),
            forall|k: int| 0 <= k < toks@.len() ==> (#[trigger] toks@[k]).1.wf(),
            spans_wf(diags@),
        decreases s.len() - i,
    {
        let (t, mut ds, extra) = lex_step(&s, &offs, i);
        let next = i + 1 + extra;
        let ghost st = step(s@, i as int);
        let ghost v0 = views(toks@);
        let ghost d0 = diags@;
        match t {
            Some(tok) => {
                let sp = span_at(&s, &offs, i, next);
                toks.push((tok, sp));
                assert(views(toks@) =~= v0.push((tok@, sp)));
            },
            None => {},
        }
        diags.append(&mut ds);
        assert(diags@ =~= d0 + st.1);
        i = next;
    }
    (toks, diags)
}

} // verus!
