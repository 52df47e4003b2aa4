//! The lexical grammar, stated over the source as a sequence of characters.
//!
//! A position past the end of the source reads as `'\0'`; the input ends
//! only there. A NUL character inside the source is a character like any
//! other: comments and strings may hold it, and no token starts with it.
use vstd::prelude::*;

use crate::lexer::TokenKind;

verus! {

/// Whether `c` has Unicode's Alphabetic property (`char::is_alphabetic`).
pub uninterp spec fn alphabetic(c: char) -> bool;

/// Whether `c` is in one of Unicode's numeric categories (`char::is_numeric`).
pub uninterp spec fn numeric(c: char) -> bool;

/// Whether `i` is outside the source.
pub open spec fn at_end(s: Seq<char>, i: int) -> bool {
    !(0 <= i < s.len())
}

/// The character at `i`, or `'\0'` outside the source.
pub open spec fn char_at(s: Seq<char>, i: int) -> char {
    if 0 <= i < s.len() {
        s[i]
    } else {
        '\0'
    }
}

pub open spec fn is_space(c: char) -> bool {
    c == '\t' || c == '\u{000B}' || c == '\u{000C}' || c == ' '
}

pub open spec fn is_terminator(c: char) -> bool {
    c == '\r' || c == '\n'
}

pub open spec fn is_ident_start(c: char) -> bool {
    alphabetic(c) || c == '$' || c == '_'
}

pub open spec fn is_ident_part(c: char) -> bool {
    c != '\0' && (alphabetic(c) || numeric(c) || c == '_')
}

pub open spec fn is_number_part(c: char) -> bool {
    c != '\0' && (numeric(c) || c == '_' || c == '.' || c == 'x')
}

pub open spec fn is_digit_part(c: char) -> bool {
    c != '\0' && numeric(c)
}

// ---------------------------------------------------------------------------
// Positions

/// A point in the source for diagnostics: zero-based line and column, and
/// whether the last character read was a carriage return.
pub struct Position {
    pub line: nat,
    pub column: nat,
    pub after_cr: bool,
}

/// How reading one character moves the position. A line feed right after a
/// carriage return belongs to the same line break; `'\0'` moves nothing.
pub open spec fn step(p: Position, c: char) -> Position {
    if c == '\0' {
        p
    } else if c == '\r' {
        Position { line: p.line + 1, column: 0, after_cr: true }
    } else if c == '\n' {
        if p.after_cr {
            Position { line: p.line, column: p.column, after_cr: false }
        } else {
            Position { line: p.line + 1, column: 0, after_cr: false }
        }
    } else {
        Position { line: p.line, column: p.column + 1, after_cr: false }
    }
}

/// The position after reading all of `s` from the start of the source.
pub open spec fn track(s: Seq<char>) -> Position
    decreases s.len(),
{
    if s.len() == 0 {
        Position { line: 0, column: 0, after_cr: false }
    } else {
        step(track(s.drop_last()), s.last())
    }
}

pub proof fn lemma_track_bounded(s: Seq<char>)
    ensures
        track(s).line + track(s).column <= s.len(),
    decreases s.len(),
{
    if s.len() > 0 {
        lemma_track_bounded(s.drop_last());
    }
}

/// The position of index `i` of the source.
pub open spec fn position_at(s: Seq<char>, i: int) -> Position {
    if i <= 0 {
        track(s.take(0))
    } else if i <= s.len() {
        track(s.take(i))
    } else {
        track(s)
    }
}

// ---------------------------------------------------------------------------
// Whitespace and comments

/// The run of whitespace, line terminators and comments that starts at `i`:
/// where it ends, whether it holds a line terminator (inside a block comment
/// too),
/// and whether it is well formed (every block comment closed). Where it is
/// not, the end is the index at which the input ran out.
pub open spec fn trivia(s: Seq<char>, i: int) -> (int, bool, bool)
    decreases s.len() - i, 0nat,
{
    let c = char_at(s, i);
    if c != '\0' && (is_space(c) || is_terminator(c)) {
        let r = trivia(s, i + 1);
        (r.0, r.1 || is_terminator(c), r.2)
    } else if c == '/' && char_at(s, i + 1) == '/' {
        line_comment(s, i + 2)
    } else if c == '/' && char_at(s, i + 1) == '*' {
        block_comment(s, i + 2, '\0')
    } else {
        (i, false, true)
    }
}

/// The rest of a line comment at `i`, and the trivia after it.
pub open spec fn line_comment(s: Seq<char>, i: int) -> (int, bool, bool)
    decreases s.len() - i, 1nat,
{
    let c = char_at(s, i);
    if at_end(s, i) || is_terminator(c) {
        trivia(s, i)
    } else {
        line_comment(s, i + 1)
    }
}

/// The rest of a block comment at `i`, after the character `prev`, and the
/// trivia after it.
pub open spec fn block_comment(s: Seq<char>, i: int, prev: char) -> (int, bool, bool)
    decreases s.len() - i, 1nat,
{
    let c = char_at(s, i);
    if at_end(s, i) {
        (i, false, false)
    } else if prev == '*' && c == '/' {
        trivia(s, i + 1)
    } else {
        let r = block_comment(s, i + 1, c);
        (r.0, r.1 || is_terminator(c), r.2)
    }
}

/// Where a line comment whose body starts at `i` ends: at the first line
/// terminator, or at the end of the input.
pub open spec fn line_end(s: Seq<char>, i: int) -> int
    decreases s.len() - i,
{
    if at_end(s, i) || is_terminator(char_at(s, i)) {
        i
    } else {
        line_end(s, i + 1)
    }
}

/// Where a block comment whose body starts at `i`, after `prev`, ends: just
/// past its `*/`, or at the end of the input where there is none.
pub open spec fn block_end(s: Seq<char>, i: int, prev: char) -> int
    decreases s.len() - i,
{
    if at_end(s, i) {
        i
    } else if prev == '*' && char_at(s, i) == '/' {
        i + 1
    } else {
        block_end(s, i + 1, char_at(s, i))
    }
}

/// Whether a block comment whose body starts at `i`, after `prev`, is
/// closed by a `*/`.
pub open spec fn block_closes(s: Seq<char>, i: int, prev: char) -> bool
    decreases s.len() - i,
{
    if at_end(s, i) {
        false
    } else if prev == '*' && char_at(s, i) == '/' {
        true
    } else {
        block_closes(s, i + 1, char_at(s, i))
    }
}

// ---------------------------------------------------------------------------
// Punctuators

pub open spec fn punct1(a: char) -> Option<TokenKind> {
    match a {
        '(' => Some(TokenKind::OpenParen),
        ')' => Some(TokenKind::CloseParen),
        '{' => Some(TokenKind::OpenCurly),
        '}' => Some(TokenKind::CloseCurly),
        '[' => Some(TokenKind::OpenBracket),
        ']' => Some(TokenKind::CloseBracket),
        ';' => Some(TokenKind::SemiColon),
        ',' => Some(TokenKind::Comma),
        '.' => Some(TokenKind::Dot),
        ':' => Some(TokenKind::DoubleDot),
        '\\' => Some(TokenKind::BackSlash),
        '~' => Some(TokenKind::Wave),
        '?' => Some(TokenKind::Question),
        '*' => Some(TokenKind::Asterisk),
        '/' => Some(TokenKind::Slash),
        '&' => Some(TokenKind::Ampersand),
        '|' => Some(TokenKind::Bar),
        '^' => Some(TokenKind::Caret),
        '%' => Some(TokenKind::Modulo),
        '=' => Some(TokenKind::Equal),
        '<' => Some(TokenKind::LessThan),
        '>' => Some(TokenKind::GreaterThan),
        '!' => Some(TokenKind::Exclamation),
        '+' => Some(TokenKind::Plus),
        '-' => Some(TokenKind::Minus),
        _ => None,
    }
}

pub open spec fn punct2(a: char, b: char) -> Option<TokenKind> {
    match (a, b) {
        ('*', '=') => Some(TokenKind::AsteriskEqual),
        ('/', '=') => Some(TokenKind::SlashEqual),
        ('&', '&') => Some(TokenKind::And),
        ('&', '=') => Some(TokenKind::AmpersandEqual),
        ('|', '|') => Some(TokenKind::Or),
        ('|', '=') => Some(TokenKind::BarEqual),
        ('^', '=') => Some(TokenKind::CaretEqual),
        ('%', '=') => Some(TokenKind::ModuloEqual),
        ('=', '=') => Some(TokenKind::DoubleEqual),
        ('<', '=') => Some(TokenKind::LessThanEqual),
        ('<', '<') => Some(TokenKind::LeftShift),
        ('>', '=') => Some(TokenKind::GreaterThanEqual),
        ('>', '>') => Some(TokenKind::RightShift),
        ('!', '=') => Some(TokenKind::NotEqual),
        ('+', '+') => Some(TokenKind::DoublePlus),
        ('+', '=') => Some(TokenKind::PlusEqual),
        ('-', '-') => Some(TokenKind::DoubleMinus),
        ('-', '=') => Some(TokenKind::MinusEqual),
        _ => None,
    }
}

pub open spec fn punct3(a: char, b: char, c: char) -> Option<TokenKind> {
    match (a, b, c) {
        ('<', '<', '=') => Some(TokenKind::LeftShiftEqual),
        ('>', '>', '=') => Some(TokenKind::RightShiftEqual),
        ('>', '>', '>') => Some(TokenKind::TripleGreaterThan),
        _ => None,
    }
}

pub open spec fn punct4(a: char, b: char, c: char, d: char) -> Option<TokenKind> {
    if a == '>' && b == '>' && c == '>' && d == '=' {
        Some(TokenKind::TripleGreaterThanEqual)
    } else {
        None
    }
}

/// The punctuator that `t` spells, if any.
pub open spec fn punctuator(t: Seq<char>) -> Option<TokenKind> {
    if t.len() == 1 {
        punct1(t[0])
    } else if t.len() == 2 {
        punct2(t[0], t[1])
    } else if t.len() == 3 {
        punct3(t[0], t[1], t[2])
    } else if t.len() == 4 {
        punct4(t[0], t[1], t[2], t[3])
    } else {
        None
    }
}

/// The length of the longest punctuator at `i` (0 where none starts there).
pub open spec fn punct_len(s: Seq<char>, i: int) -> int {
    let (a, b, c, d) = (char_at(s, i), char_at(s, i + 1), char_at(s, i + 2), char_at(s, i + 3));
    if punct4(a, b, c, d) is Some {
        4
    } else if punct3(a, b, c) is Some {
        3
    } else if punct2(a, b) is Some {
        2
    } else if punct1(a) is Some {
        1
    } else {
        0
    }
}

// ---------------------------------------------------------------------------
// Literals and words

/// Where a string literal whose body starts at `i` ends (just past the closing
/// `delim`); or how and where the input ran out, inside the body or inside an
/// escape pair.
pub open spec fn string_end(s: Seq<char>, i: int, delim: char) -> Result<int, (LexFault, int)>
    decreases s.len() - i,
{
    let c = char_at(s, i);
    if at_end(s, i) {
        Err((LexFault::UnterminatedString, i))
    } else if c == '\\' {
        if at_end(s, i + 1) {
            Err((LexFault::UnterminatedEscape, i + 1))
        } else {
            string_end(s, i + 2, delim)
        }
    } else if c == delim {
        Ok(i + 1)
    } else {
        string_end(s, i + 1, delim)
    }
}

/// The end of the run of number characters (digits, `_`, `.`, `x`) at `i`.
pub open spec fn number_run(s: Seq<char>, i: int) -> int
    decreases s.len() - i,
{
    if is_number_part(char_at(s, i)) {
        number_run(s, i + 1)
    } else {
        i
    }
}

/// The end of the run of digits at `i`.
pub open spec fn digit_run(s: Seq<char>, i: int) -> int
    decreases s.len() - i,
{
    if is_digit_part(char_at(s, i)) {
        digit_run(s, i + 1)
    } else {
        i
    }
}

/// The end of the run of word characters (letters, digits, `_`) at `i`.
pub open spec fn word_run(s: Seq<char>, i: int) -> int
    decreases s.len() - i,
{
    if is_ident_part(char_at(s, i)) {
        word_run(s, i + 1)
    } else {
        i
    }
}

/// The end of a number literal whose first character is at `i`: digits,
/// `_`, `.` and `x`, then an optional exponent with an optional sign.
pub open spec fn number_end(s: Seq<char>, i: int) -> int {
    let a = number_run(s, i + 1);
    if char_at(s, a) == 'e' || char_at(s, a) == 'E' {
        let b = if char_at(s, a + 1) == '+' || char_at(s, a + 1) == '-' {
            a + 2
        } else {
            a + 1
        };
        digit_run(s, b)
    } else {
        a
    }
}

/// The end of an identifier or keyword whose first character is at `i`.
pub open spec fn word_end(s: Seq<char>, i: int) -> int {
    word_run(s, i + 1)
}

/// The kind of a word: one of the keywords, or an identifier.
pub open spec fn keyword_kind(w: Seq<char>) -> TokenKind {
    if w == "break"@ {
        TokenKind::Break
    } else if w == "for"@ {
        TokenKind::For
    } else if w == "new"@ {
        TokenKind::New
    } else if w == "var"@ {
        TokenKind::Var
    } else if w == "continue"@ {
        TokenKind::Continue
    } else if w == "function"@ {
        TokenKind::Function
    } else if w == "return"@ {
        TokenKind::Return
    } else if w == "void"@ {
        TokenKind::Void
    } else if w == "delete"@ {
        TokenKind::Delete
    } else if w == "if"@ {
        TokenKind::If
    } else if w == "this"@ {
        TokenKind::This
    } else if w == "while"@ {
        TokenKind::While
    } else if w == "else"@ {
        TokenKind::Else
    } else if w == "in"@ {
        TokenKind::In
    } else if w == "typeof"@ {
        TokenKind::Typeof
    } else if w == "with"@ {
        TokenKind::With
    } else if w == "true"@ {
        TokenKind::True
    } else if w == "false"@ {
        TokenKind::False
    } else if w == "null"@ {
        TokenKind::Null
    } else if w == "undefined"@ {
        TokenKind::Undefined
    } else if w == "case"@ {
        TokenKind::Case
    } else if w == "debugger"@ {
        TokenKind::Debugger
    } else if w == "export"@ {
        TokenKind::Export
    } else if w == "super"@ {
        TokenKind::Super
    } else if w == "catch"@ {
        TokenKind::Catch
    } else if w == "default"@ {
        TokenKind::Default
    } else if w == "extends"@ {
        TokenKind::Extends
    } else if w == "switch"@ {
        TokenKind::Switch
    } else if w == "class"@ {
        TokenKind::Class
    } else if w == "do"@ {
        TokenKind::Do
    } else if w == "finally"@ {
        TokenKind::Finally
    } else if w == "throw"@ {
        TokenKind::Throw
    } else if w == "const"@ {
        TokenKind::Const
    } else if w == "enum"@ {
        TokenKind::Enum
    } else if w == "import"@ {
        TokenKind::Import
    } else if w == "try"@ {
        TokenKind::Try
    } else {
        TokenKind::Identifier
    }
}

// ---------------------------------------------------------------------------
// Tokens

/// What can go wrong while reading a token.
#[derive(Clone, Copy, PartialEq, Eq, Debug, Structural)]
pub enum LexFault {
    UnterminatedComment,
    UnterminatedString,
    UnterminatedEscape,
    MissingSeparator,
    UnknownTokenStart,
}

/// The token that starts after the trivia at `i`: its kind, where its text
/// begins and ends, and whether a line terminator came before it. An `EOF`
/// token has no text and comes only at the end of the source; reading it
/// moves one place past that end. A failure
/// gives its kind and the index at which it was found.
pub open spec fn scan(s: Seq<char>, i: int) -> Result<(TokenKind, int, int, bool), (LexFault, int)> {
    let (p, nl, ok) = trivia(s, i);
    let c = char_at(s, p);
    if !ok {
        Err((LexFault::UnterminatedComment, p))
    } else if at_end(s, p) {
        Ok((TokenKind::EOF, p, p + 1, nl))
    } else if punct_len(s, p) > 0 {
        let e = p + punct_len(s, p);
        Ok((punctuator(s.subrange(p, e)).unwrap(), p, e, nl))
    } else if c == '\'' || c == '"' {
        match string_end(s, p + 1, c) {
            Ok(e) => Ok((TokenKind::String, p, e, nl)),
            Err(f) => Err(f),
        }
    } else if numeric(c) {
        let e = number_end(s, p);
        if is_ident_start(char_at(s, e)) {
            Err((LexFault::MissingSeparator, e))
        } else {
            Ok((TokenKind::Number, p, e, nl))
        }
    } else if is_ident_start(c) {
        let e = word_end(s, p);
        Ok((keyword_kind(s.subrange(p, e)), p, e, nl))
    } else {
        Err((LexFault::UnknownTokenStart, p + 1))
    }
}


/// The tokens of `s` from index `i` on, up to and with the `EOF` token; or
/// the first failure.
pub open spec fn tokens_from(s: Seq<char>, i: int) -> Result<Seq<(TokenKind, int, int, bool)>, (LexFault, int)>
    decreases s.len() - i,
    via tokens_from_decreases
{
    match scan(s, i) {
        Err(f) => Err(f),
        Ok(t) => if t.0 == TokenKind::EOF {
            Ok(seq![t])
        } else {
            match tokens_from(s, t.2) {
                Ok(rest) => Ok(seq![t] + rest),
                Err(f) => Err(f),
            }
        },
    }
}

#[via_fn]
proof fn tokens_from_decreases(s: Seq<char>, i: int) {
    lemma_scan_advances(s, i);
}

proof fn lemma_trivia_forward(s: Seq<char>, i: int)
    ensures
        trivia(s, i).0 >= i,
        line_comment(s, i).0 >= i,
        forall|prev: char| #[trigger] block_comment(s, i, prev).0 >= i,
    decreases s.len() - i,
{
    let c = char_at(s, i);
    if !at_end(s, i) {
        lemma_trivia_forward(s, i + 1);
        if !at_end(s, i + 1) {
            lemma_trivia_forward(s, i + 2);
            assert(block_comment(s, i + 2, '\0').0 >= i + 2);
        }
    }
    assert(trivia(s, i).0 >= i);
    assert(line_comment(s, i).0 >= i);
    assert forall|prev: char| #[trigger] block_comment(s, i, prev).0 >= i by {
        if !at_end(s, i) {
            assert(block_comment(s, i + 1, c).0 >= i + 1);
        }
    }
}

proof fn lemma_string_end_forward(s: Seq<char>, i: int, delim: char)
    ensures
        string_end(s, i, delim) is Ok ==> i < string_end(s, i, delim)->Ok_0 <= s.len(),
    decreases s.len() - i,
{
    if !at_end(s, i) {
        lemma_string_end_forward(s, i + 1, delim);
        if !at_end(s, i + 1) {
            lemma_string_end_forward(s, i + 2, delim);
        }
    }
}

proof fn lemma_runs_forward(s: Seq<char>, i: int)
    ensures
        number_run(s, i) >= i,
        digit_run(s, i) >= i,
        word_run(s, i) >= i,
        i <= s.len() ==> number_run(s, i) <= s.len(),
        i <= s.len() ==> digit_run(s, i) <= s.len(),
        i <= s.len() ==> word_run(s, i) <= s.len(),
    decreases s.len() - i,
{
    if char_at(s, i) != '\0' {
        lemma_runs_forward(s, i + 1);
    }
}

/// Each token but `EOF` takes at least one character.
pub proof fn lemma_scan_advances(s: Seq<char>, i: int)
    ensures
        scan(s, i) is Ok && scan(s, i)->Ok_0.0 != TokenKind::EOF ==> {
            let t = scan(s, i)->Ok_0;
            &&& 0 <= i <= t.1 < t.2 <= s.len()
            &&& i < s.len()
        },
{
    let p = trivia(s, i).0;
    lemma_trivia_forward(s, i);
    lemma_string_end_forward(s, p + 1, char_at(s, p));
    lemma_runs_forward(s, p + 1);
    let a = number_run(s, p + 1);
    lemma_runs_forward(s, a + 1);
    lemma_runs_forward(s, a + 2);
    if scan(s, i) is Ok && scan(s, i)->Ok_0.0 != TokenKind::EOF {
        assert(!at_end(s, p));
    }
}

/// A token stream ends with exactly one `EOF` token.
pub proof fn lemma_tokens_end_with_eof(s: Seq<char>, i: int)
    ensures
        tokens_from(s, i) is Ok ==> {
            let ts = tokens_from(s, i)->Ok_0;
            &&& ts.len() > 0
            &&& ts.last().0 == TokenKind::EOF
            &&& forall|k: int| 0 <= k < ts.len() - 1 ==> ts[k].0 != TokenKind::EOF
        },
    decreases s.len() - i,
{
    lemma_scan_advances(s, i);
    if scan(s, i) is Ok && scan(s, i)->Ok_0.0 != TokenKind::EOF {
        let t = scan(s, i)->Ok_0;
        lemma_tokens_end_with_eof(s, t.2);
        if tokens_from(s, t.2) is Ok {
            let rest = tokens_from(s, t.2)->Ok_0;
            let ts = seq![t] + rest;
            assert(ts.last() == rest.last());
            assert forall|k: int| 0 <= k < ts.len() - 1 implies ts[k].0 != TokenKind::EOF by {
                if k > 0 {
                    assert(ts[k] == rest[k - 1]);
                }
            }
        }
    }
}

proof fn lemma_string_end_closes(s: Seq<char>, i: int, delim: char)
    ensures
        string_end(s, i, delim) is Ok ==> {
            let e = string_end(s, i, delim)->Ok_0;
            e > i && char_at(s, e - 1) == delim
        },
    decreases s.len() - i,
{
    if !at_end(s, i) {
        lemma_string_end_closes(s, i + 1, delim);
        if !at_end(s, i + 1) {
            lemma_string_end_closes(s, i + 2, delim);
        }
    }
}

/// No string literal is left open: every string token that lexing gives
/// starts and ends with the same quote.
pub proof fn lemma_string_tokens_closed(s: Seq<char>, i: int)
    ensures
        tokens_from(s, i) is Ok ==> {
            let ts = tokens_from(s, i)->Ok_0;
            forall|k: int|
                0 <= k < ts.len() && #[trigger] ts[k].0 == TokenKind::String ==> {
                    let (start, end) = (ts[k].1, ts[k].2);
                    &&& start + 2 <= end
                    &&& char_at(s, start) == '\'' || char_at(s, start) == '"'
                    &&& char_at(s, end - 1) == char_at(s, start)
                }
        },
    decreases s.len() - i,
{
    lemma_scan_advances(s, i);
    let p = trivia(s, i).0;
    lemma_string_end_closes(s, p + 1, char_at(s, p));
    if scan(s, i) is Ok {
        let t = scan(s, i)->Ok_0;
        if t.0 == TokenKind::String {
            assert(punct_len(s, p) == 0) by {
                if punct_len(s, p) > 0 {
                    let e = p + punct_len(s, p);
                    assert(punctuator(s.subrange(p, e)) is Some);
                }
            }
        }
        if t.0 != TokenKind::EOF {
            lemma_string_tokens_closed(s, t.2);
            if tokens_from(s, t.2) is Ok {
                let rest = tokens_from(s, t.2)->Ok_0;
                let ts = seq![t] + rest;
                assert forall|k: int| 0 <= k < ts.len() && #[trigger] ts[k].0 == TokenKind::String implies {
                    let (start, end) = (ts[k].1, ts[k].2);
                    &&& start + 2 <= end
                    &&& char_at(s, start) == '\'' || char_at(s, start) == '"'
                    &&& char_at(s, end - 1) == char_at(s, start)
                } by {
                    if k > 0 {
                        assert(ts[k] == rest[k - 1]);
                    }
                }
            }
        }
    }
}

} // verus!
