//! Turns source text into tokens.
use vstd::prelude::*;
use vstd::string::StrSliceExecFns;

use crate::lexical::{
    alphabetic, at_end, block_closes, block_comment, block_end, char_at, line_end, digit_run, is_space, is_terminator, keyword_kind,
    lemma_scan_advances, lemma_tokens_end_with_eof, lemma_track_bounded, line_comment, number_end,
    number_run, numeric, position_at, punct1, punct2, punct3, punct4, scan, string_end, tokens_from,
    track, trivia, word_end, word_run, LexFault, Position,
};

verus! {

/// Where the lexer stands, for diagnostics: zero-based `line`, and the column
/// within it in `row`.
#[derive(Debug)]
pub struct Cursor {
    pub line: usize,
    pub row: usize,
}

#[derive(Clone, Copy, PartialEq, Eq, Debug, Structural)]
pub enum TokenKind {
    // keywords
    Break,
    For,
    New,
    Var,
    Continue,
    Function,
    Return,
    Void,
    Delete,
    If,
    This,
    While,
    Else,
    In,
    Typeof,
    With,
    True,
    False,
    Null,
    // reserved for later use: they lex as keywords and have no grammar
    Case,
    Debugger,
    Export,
    Super,
    Catch,
    Default,
    Extends,
    Switch,
    Class,
    Do,
    Finally,
    Throw,
    Const,
    Enum,
    Import,
    Try,
    Undefined,
    // punctuators
    SemiColon,
    OpenParen,
    CloseParen,
    OpenBracket,
    CloseBracket,
    Dot,
    Slash,
    Asterisk,
    Equal,
    GreaterThan,
    LessThan,
    DoubleEqual,
    LessThanEqual,
    GreaterThanEqual,
    NotEqual,
    Comma,
    Exclamation,
    Wave,
    Question,
    DoubleDot,
    And,
    Or,
    DoublePlus,
    DoubleMinus,
    Plus,
    Minus,
    Ampersand,
    Bar,
    Caret,
    Modulo,
    LeftShift,
    RightShift,
    TripleGreaterThan,
    PlusEqual,
    MinusEqual,
    AsteriskEqual,
    SlashEqual,
    AmpersandEqual,
    BarEqual,
    CaretEqual,
    ModuloEqual,
    LeftShiftEqual,
    RightShiftEqual,
    TripleGreaterThanEqual,
    OpenCurly,
    CloseCurly,
    BackSlash,
    // literals and names
    Identifier,
    Number,
    String,
    NewLine,
    EOF,
}

/// A token: its kind, its text as written (a string literal keeps its
/// quotes), whether a line terminator came before it, and the zero-based line
/// and column at which it starts.
#[derive(Debug)]
pub struct Token {
    pub content: String,
    pub kind: TokenKind,
    pub line_terminator_before: bool,
    pub line: usize,
    pub col: usize,
}

/// A lexical error: what went wrong, the zero-based line and column at
/// which it was found, and, for a character that starts no token, that
/// character (empty otherwise).
#[derive(Debug)]
pub struct LexError {
    pub fault: LexFault,
    pub line: usize,
    pub col: usize,
    pub found: String,
}

impl LexError {
    /// A description of the error for people.
    pub fn message(&self) -> (r: String)
        ensures
            r@ == fault_message(self.fault) + if self.fault == LexFault::UnknownTokenStart {
                " '"@ + self.found@ + "'"@
            } else {
                Seq::empty()
            },
    {
        let mut m = fault_text(self.fault).to_string();
        if self.fault == LexFault::UnknownTokenStart {
            m.append(" '");
            m.append(self.found.as_str());
            m.append("'");
        } else {
            proof {
                assert(m@ =~= m@ + Seq::<char>::empty());
            }
        }
        m
    }
}

pub open spec fn fault_message(f: LexFault) -> Seq<char> {
    match f {
        LexFault::UnterminatedComment => "EOF in a comment"@,
        LexFault::UnterminatedString => "EOF in string"@,
        LexFault::UnterminatedEscape => "EOF in string escape"@,
        LexFault::MissingSeparator => "missing separator after number literal"@,
        LexFault::UnknownTokenStart => "unknown token start"@,
    }
}

fn fault_text(f: LexFault) -> (r: &'static str)
    ensures
        r@ == fault_message(f),
{
    match f {
        LexFault::UnterminatedComment => "EOF in a comment",
        LexFault::UnterminatedString => "EOF in string",
        LexFault::UnterminatedEscape => "EOF in string escape",
        LexFault::MissingSeparator => "missing separator after number literal",
        LexFault::UnknownTokenStart => "unknown token start",
    }
}

/// The lexer: the source, and how far it has been read. `row` is the index,
/// in characters, of the next character to read; `cursor` is where that is in
/// lines and columns.
pub struct Lexer {
    pub source: String,
    pub cursor: Cursor,
    pub line: usize,
    pub row: usize,
    pub prev_cr: bool,
}

/// Relies on char::is_alphabetic, which depends on the character alone.
#[verifier::external_body]
fn is_alphabetic(c: char) -> (r: bool)
    ensures
        r == alphabetic(c),
{
    c.is_alphabetic()
}

/// Relies on char::is_numeric, which depends on the character alone.
#[verifier::external_body]
fn is_numeric(c: char) -> (r: bool)
    ensures
        r == numeric(c),
{
    c.is_numeric()
}

impl Lexer {
    /// The cursor and the carriage-return flag are those of the characters
    /// read so far; `row` may have gone past the end of the source, where
    /// every read gives `'\0'`.
    pub open spec fn wf(&self) -> bool {
        &&& self.position() == position_at(self.source@, self.row as int)
        &&& self.source@.len() < usize::MAX
    }

    pub open spec fn position(&self) -> Position {
        Position { line: self.cursor.line as nat, column: self.cursor.row as nat, after_cr: self.prev_cr }
    }

    /// A lexer at the start of `source`, whose length in characters must
    /// leave room for the index one past its end.
    pub fn new(source: String) -> (r: Lexer)
        requires
            source@.len() < usize::MAX,
        ensures
            r.wf(),
            r.source == source,
            r.row == 0,
    {
        let r = Lexer { source, cursor: Cursor { line: 0, row: 0 }, line: 0, row: 0, prev_cr: false };
        proof {
            assert(r.source@.take(0) =~= Seq::<char>::empty());
        }
        r
    }

    fn source_len(&self) -> (n: usize)
        ensures
            n == self.source@.len(),
    {
        self.source.as_str().unicode_len()
    }

    /// Reads one character, and moves `row` on by one; past the end of the
    /// source it reads `'\0'` and the cursor stays where it is.
    fn get_next_char(&mut self) -> (c: char)
        requires
            old(self).wf(),
            old(self).row < usize::MAX,
        ensures
            final(self).wf(),
            final(self).source == old(self).source,
            final(self).line == old(self).line,
            c == char_at(old(self).source@, old(self).row as int),
            final(self).row == old(self).row + 1,
            c == '\0' ==> final(self).position() == old(self).position(),
    {
        let len = self.source_len();
        if self.row >= len {
            proof {
                assert(self.source@.take(len as int) =~= self.source@);
            }
            self.row = self.row + 1;
            return '\0';
        }
        let c = self.source.as_str().get_char(self.row);
        let ghost s = self.source@;
        let ghost i = self.row as int;
        proof {
            assert(s.take(i + 1).drop_last() =~= s.take(i));
            lemma_track_bounded(s.take(i + 1));
        }
        self.row = self.row + 1;
        if c == '\0' {
            return c;
        }
        if c == '\r' {
            self.cursor.line = self.cursor.line + 1;
            self.cursor.row = 0;
            self.prev_cr = true;
        } else if c == '\n' {
            if self.prev_cr {
                self.prev_cr = false;
            } else {
                self.cursor.line = self.cursor.line + 1;
                self.cursor.row = 0;
            }
        } else {
            self.cursor.row = self.cursor.row + 1;
            self.prev_cr = false;
        }
        c
    }

    fn get_current_char(&self) -> (c: char)
        requires
            self.wf(),
        ensures
            c == char_at(self.source@, self.row as int),
    {
        if self.row < self.source_len() {
            self.source.as_str().get_char(self.row)
        } else {
            '\0'
        }
    }

    fn peek_char(&self, offset: usize) -> (c: char)
        requires
            self.wf(),
        ensures
            c == char_at(self.source@, self.row + offset),
    {
        let len = self.source_len();
        if self.row < len && offset < len - self.row {
            self.source.as_str().get_char(self.row + offset)
        } else {
            '\0'
        }
    }

    /// Reads the next character where it is `expected`.
    fn eat_char(&mut self, expected: char) -> (r: bool)
        requires
            old(self).wf(),
            expected != '\0',
        ensures
            final(self).wf(),
            final(self).source == old(self).source,
            final(self).line == old(self).line,
            r == (char_at(old(self).source@, old(self).row as int) == expected),
            final(self).row == if r { old(self).row + 1 } else { old(self).row as int },
            !r ==> *final(self) == *old(self),
    {
        if self.get_current_char() == expected {
            self.get_next_char();
            return true;
        }
        false
    }

    fn isspace(x: char) -> (r: bool)
        ensures
            r == is_space(x),
    {
        x == '\t' || x == '\u{000B}' || x == '\u{000C}' || x == ' '
    }

    fn isterminator(x: char) -> (r: bool)
        ensures
            r == is_terminator(x),
    {
        x == '\u{000D}' || x == '\u{000A}'
    }

    fn error(&self, fault: LexFault, found: String) -> (e: LexError)
        ensures
            e.fault == fault,
            e.line == self.cursor.line,
            e.col == self.cursor.row,
            e.found == found,
    {
        LexError { fault, line: self.cursor.line, col: self.cursor.row, found }
    }
}


/// The result of reading one token from index `i` of `s`, as the lexical
/// grammar gives it, with `row` where the lexer then stands.
pub open spec fn lexed(s: Seq<char>, i: int, r: Result<Token, LexError>, row: int) -> bool {
    match scan(s, i) {
        Ok((kind, start, end, nl)) => r is Ok && row == end && token_is(r->Ok_0, s, kind, start, end, nl),
        Err((f, at)) => r is Err && error_is(r->Err_0, s, f, at),
    }
}

/// `r` holds the tokens of `s` from index `i` on, or the first failure.
pub open spec fn walked(s: Seq<char>, i: int, r: Result<Vec<Token>, LexError>) -> bool {
    match tokens_from(s, i) {
        Ok(ts) => {
            &&& r is Ok
            &&& r->Ok_0@.len() == ts.len()
            &&& forall|k: int|
                0 <= k < ts.len() ==> #[trigger] token_is(r->Ok_0@[k], s, ts[k].0, ts[k].1, ts[k].2, ts[k].3)
        },
        Err((f, at)) => r is Err && error_is(r->Err_0, s, f, at),
    }
}

/// The tokens in `read`, then those of `rest`.
pub open spec fn after(
    read: Seq<(TokenKind, int, int, bool)>,
    rest: Result<Seq<(TokenKind, int, int, bool)>, (LexFault, int)>,
) -> Result<Seq<(TokenKind, int, int, bool)>, (LexFault, int)> {
    match rest {
        Ok(ts) => Ok(read + ts),
        Err(f) => Err(f),
    }
}

/// `t` is the token of kind `kind` written at `start..end` of `s`.
pub open spec fn token_is(t: Token, s: Seq<char>, kind: TokenKind, start: int, end: int, nl: bool) -> bool {
    &&& t.kind == kind
    &&& t.line_terminator_before == nl
    &&& t.line == position_at(s, start).line
    &&& t.col == position_at(s, start).column
    &&& t.content@ == if kind == TokenKind::EOF {
        "EOF"@
    } else {
        s.subrange(start, end)
    }
}

/// `e` reports `f` at index `at` of `s`.
pub open spec fn error_is(e: LexError, s: Seq<char>, f: LexFault, at: int) -> bool {
    &&& e.fault == f
    &&& e.line == position_at(s, at).line
    &&& e.col == position_at(s, at).column
    &&& e.found@ == if f == LexFault::UnknownTokenStart {
        s.subrange(at - 1, at)
    } else {
        Seq::empty()
    }
}

fn punct1_kind(a: char) -> (r: Option<TokenKind>)
    ensures
        r == punct1(a),
{
    match a {
        '(' => Some(TokenKind::OpenParen),
        ')' => Some(TokenKind::CloseParen),
        '{' => Some(TokenKind::OpenCurly),
        '}' => Some(TokenKind::CloseCurly),
        '[' => Some(TokenKind::OpenBracket),
        ']' => Some(TokenKind::CloseBracket),
        ';' => Some(TokenKind::SemiColon),
        ',' => Some(TokenKind::Comma),
        '.' => Some(TokenKind::Dot),
        ':' => Some(TokenKind::DoubleDot),
        '\\' => Some(TokenKind::BackSlash),
        '~' => Some(TokenKind::Wave),
        '?' => Some(TokenKind::Question),
        '*' => Some(TokenKind::Asterisk),
        '/' => Some(TokenKind::Slash),
        '&' => Some(TokenKind::Ampersand),
        '|' => Some(TokenKind::Bar),
        '^' => Some(TokenKind::Caret),
        '%' => Some(TokenKind::Modulo),
        '=' => Some(TokenKind::Equal),
        '<' => Some(TokenKind::LessThan),
        '>' => Some(TokenKind::GreaterThan),
        '!' => Some(TokenKind::Exclamation),
        '+' => Some(TokenKind::Plus),
        '-' => Some(TokenKind::Minus),
        _ => None,
    }
}

fn punct2_kind(a: char, b: char) -> (r: Option<TokenKind>)
    ensures
        r == punct2(a, b),
{
    match (a, b) {
        ('*', '=') => Some(TokenKind::AsteriskEqual),
        ('/', '=') => Some(TokenKind::SlashEqual),
        ('&', '&') => Some(TokenKind::And),
        ('&', '=') => Some(TokenKind::AmpersandEqual),
        ('|', '|') => Some(TokenKind::Or),
        ('|', '=') => Some(TokenKind::BarEqual),
        ('^', '=') => Some(TokenKind::CaretEqual),
        ('%', '=') => Some(TokenKind::ModuloEqual),
        ('=', '=') => Some(TokenKind::DoubleEqual),
        ('<', '=') => Some(TokenKind::LessThanEqual),
        ('<', '<') => Some(TokenKind::LeftShift),
        ('>', '=') => Some(TokenKind::GreaterThanEqual),
        ('>', '>') => Some(TokenKind::RightShift),
        ('!', '=') => Some(TokenKind::NotEqual),
        ('+', '+') => Some(TokenKind::DoublePlus),
        ('+', '=') => Some(TokenKind::PlusEqual),
        ('-', '-') => Some(TokenKind::DoubleMinus),
        ('-', '=') => Some(TokenKind::MinusEqual),
        _ => None,
    }
}

fn punct3_kind(a: char, b: char, c: char) -> (r: Option<TokenKind>)
    ensures
        r == punct3(a, b, c),
{
    match (a, b, c) {
        ('<', '<', '=') => Some(TokenKind::LeftShiftEqual),
        ('>', '>', '=') => Some(TokenKind::RightShiftEqual),
        ('>', '>', '>') => Some(TokenKind::TripleGreaterThan),
        _ => None,
    }
}

fn punct4_kind(a: char, b: char, c: char, d: char) -> (r: Option<TokenKind>)
    ensures
        r == punct4(a, b, c, d),
{
    if a == '>' && b == '>' && c == '>' && d == '=' {
        Some(TokenKind::TripleGreaterThanEqual)
    } else {
        None
    }
}

/// Whether `a` and `b` hold the same characters.
fn same_text(a: &str, b: &str) -> (r: bool)
    ensures
        r == (a@ == b@),
{
    let n = a.unicode_len();
    if n != b.unicode_len() {
        return false;
    }
    let mut i: usize = 0;
    while i < n
        invariant
            n == a@.len() == b@.len(),
            i <= n,
            forall|j: int| 0 <= j < i ==> a@[j] == b@[j],
        decreases n - i,
    {
        if a.get_char(i) != b.get_char(i) {
            return false;
        }
        i = i + 1;
    }
    proof {
        assert(a@ =~= b@);
    }
    true
}

impl Lexer {
    fn keyword_kind(s: &str) -> (r: TokenKind)
        ensures
            r == keyword_kind(s@),
    {
        if same_text(s, "break") {
            TokenKind::Break
        } else if same_text(s, "for") {
            TokenKind::For
        } else if same_text(s, "new") {
            TokenKind::New
        } else if same_text(s, "var") {
            TokenKind::Var
        } else if same_text(s, "continue") {
            TokenKind::Continue
        } else if same_text(s, "function") {
            TokenKind::Function
        } else if same_text(s, "return") {
            TokenKind::Return
        } else if same_text(s, "void") {
            TokenKind::Void
        } else if same_text(s, "delete") {
            TokenKind::Delete
        } else if same_text(s, "if") {
            TokenKind::If
        } else if same_text(s, "this") {
            TokenKind::This
        } else if same_text(s, "while") {
            TokenKind::While
        } else if same_text(s, "else") {
            TokenKind::Else
        } else if same_text(s, "in") {
            TokenKind::In
        } else if same_text(s, "typeof") {
            TokenKind::Typeof
        } else if same_text(s, "with") {
            TokenKind::With
        } else if same_text(s, "true") {
            TokenKind::True
        } else if same_text(s, "false") {
            TokenKind::False
        } else if same_text(s, "null") {
            TokenKind::Null
        } else if same_text(s, "undefined") {
            TokenKind::Undefined
        } else if same_text(s, "case") {
            TokenKind::Case
        } else if same_text(s, "debugger") {
            TokenKind::Debugger
        } else if same_text(s, "export") {
            TokenKind::Export
        } else if same_text(s, "super") {
            TokenKind::Super
        } else if same_text(s, "catch") {
            TokenKind::Catch
        } else if same_text(s, "default") {
            TokenKind::Default
        } else if same_text(s, "extends") {
            TokenKind::Extends
        } else if same_text(s, "switch") {
            TokenKind::Switch
        } else if same_text(s, "class") {
            TokenKind::Class
        } else if same_text(s, "do") {
            TokenKind::Do
        } else if same_text(s, "finally") {
            TokenKind::Finally
        } else if same_text(s, "throw") {
            TokenKind::Throw
        } else if same_text(s, "const") {
            TokenKind::Const
        } else if same_text(s, "enum") {
            TokenKind::Enum
        } else if same_text(s, "import") {
            TokenKind::Import
        } else if same_text(s, "try") {
            TokenKind::Try
        } else {
            TokenKind::Identifier
        }
    }

    /// The text of the source from `start` to `end`.
    fn text(&self, start: usize, end: usize) -> (r: String)
        requires
            start <= end <= self.source@.len(),
        ensures
            r@ == self.source@.subrange(start as int, end as int),
    {
        self.source.as_str().substring_char(start, end).to_owned()
    }

    /// Whether all of the source has been read.
    fn at_end(&self) -> (r: bool)
        requires
            self.wf(),
        ensures
            r == at_end(self.source@, self.row as int),
    {
        self.row >= self.source_len()
    }

    /// Skips a comment that starts at the current character, if one does.
    /// Gives whether one was skipped, and whether it held a line terminator.
    #[verifier::loop_isolation(false)]
    fn skip_comment(&mut self) -> (r: Result<(bool, bool), LexError>)
        requires
            old(self).wf(),
        ensures
            final(self).wf(),
            final(self).source == old(self).source,
            final(self).line == old(self).line,
            old(self).row <= final(self).row,
            final(self).row == old(self).row || final(self).row <= old(self).source@.len(),
            ({
                let s = old(self).source@;
                let i = old(self).row as int;
                let j = final(self).row as int;
                let line = char_at(s, i) == '/' && char_at(s, i + 1) == '/';
                let block = char_at(s, i) == '/' && char_at(s, i + 1) == '*';
                &&& r matches Ok((true, _)) ==> i + 2 <= j <= s.len()
                &&& !line && !block ==> r == Ok::<(bool, bool), LexError>((false, false)) && *final(self) == *old(self)
                &&& line ==> r == Ok::<(bool, bool), LexError>((true, false)) && j == line_end(s, i + 2)
                    && trivia(s, j) == trivia(s, i)
                &&& block ==> (r is Ok <==> block_closes(s, i + 2, '\0'))
                &&& block ==> match r {
                    Ok((b, nl)) => {
                        &&& b
                        &&& j == block_end(s, i + 2, '\0')
                        &&& trivia(s, i) == (trivia(s, j).0, nl || trivia(s, j).1, trivia(s, j).2)
                    },
                    Err(e) => !trivia(s, i).2 && error_is(e, s, LexFault::UnterminatedComment, trivia(s, i).0),
                }
            }),
    {
        let ghost s = self.source@;
        let ghost i = self.row as int;
        if self.get_current_char() != '/' {
            return Ok((false, false));
        }
        let c1 = self.peek_char(1);
        if c1 == '/' {
            self.get_next_char();
            self.get_next_char();
            loop
                invariant
                    self.wf(),
                    self.source == old(self).source,
                    s == self.source@,
                    self.line == old(self).line,
                    i + 2 <= self.row <= s.len(),
                    line_comment(s, self.row as int) == trivia(s, i),
                    line_end(s, self.row as int) == line_end(s, i + 2),
                decreases s.len() - self.row,
            {
                if self.at_end() || Self::isterminator(self.get_current_char()) {
                    break;
                }
                self.get_next_char();
            }
            Ok((true, false))
        } else if c1 == '*' {
            self.get_next_char();
            self.get_next_char();
            let mut prev = '\0';
            let mut saw_line_terminator = false;
            loop
                invariant
                    self.wf(),
                    self.source == old(self).source,
                    s == self.source@,
                    self.line == old(self).line,
                    i + 2 <= self.row <= s.len(),
                    ({
                        let b = block_comment(s, self.row as int, prev);
                        trivia(s, i) == (b.0, saw_line_terminator || b.1, b.2)
                    }),
                    block_end(s, self.row as int, prev) == block_end(s, i + 2, '\0'),
                    block_closes(s, self.row as int, prev) == block_closes(s, i + 2, '\0'),
                decreases s.len() - self.row,
            {
                if self.at_end() {
                    return Err(self.error(LexFault::UnterminatedComment, String::new()));
                }
                let c = self.get_next_char();
                if prev == '*' && c == '/' {
                    break;
                }
                if Self::isterminator(c) {
                    saw_line_terminator = true;
                }
                prev = c;
            }
            Ok((true, saw_line_terminator))
        } else {
            Ok((false, false))
        }
    }

    /// Skips whitespace other than line terminators, and comments. Gives
    /// whether a comment held a line terminator.
    #[verifier::loop_isolation(false)]
    fn skip_spaces(&mut self) -> (r: Result<bool, LexError>)
        requires
            old(self).wf(),
        ensures
            final(self).wf(),
            final(self).source == old(self).source,
            final(self).line == old(self).line,
            old(self).row <= final(self).row,
            final(self).row == old(self).row || final(self).row <= old(self).source@.len(),
            ({
                let s = old(self).source@;
                let i = old(self).row as int;
                let j = final(self).row as int;
                match r {
                    Ok(nl) => {
                        &&& trivia(s, i) == (trivia(s, j).0, nl || trivia(s, j).1, trivia(s, j).2)
                        &&& !is_space(char_at(s, j))
                        &&& !(char_at(s, j) == '/' && (char_at(s, j + 1) == '/' || char_at(s, j + 1) == '*'))
                    },
                    Err(e) => !trivia(s, i).2 && error_is(e, s, LexFault::UnterminatedComment, trivia(s, i).0),
                }
            }),
    {
        let ghost s = self.source@;
        let ghost i = self.row as int;
        let mut saw_line_terminator = false;
        loop
            invariant
                self.wf(),
                self.source == old(self).source,
                s == self.source@,
                self.line == old(self).line,
                i <= self.row,
                self.row == i || self.row <= s.len(),
                ({
                    let v = trivia(s, self.row as int);
                    trivia(s, i) == (v.0, saw_line_terminator || v.1, v.2)
                }),
            decreases s.len() - self.row,
        {
            let ghost head = self.row;
            while Self::isspace(self.get_current_char())
                invariant
                    self.wf(),
                    self.source == old(self).source,
                    s == self.source@,
                    self.line == old(self).line,
                    i <= head <= self.row,
                    self.row == head || self.row <= s.len(),
                    head == i || head <= s.len(),
                    trivia(s, self.row as int) == trivia(s, head as int),
                decreases s.len() - self.row,
            {
                self.get_next_char();
            }
            match self.skip_comment() {
                Ok((true, nl)) => {
                    saw_line_terminator = saw_line_terminator || nl;
                },
                Ok((false, _)) => break,
                Err(e) => return Err(e),
            }
        }
        Ok(saw_line_terminator)
    }

    /// Reads `n` more characters, none of them the end of the input.
    fn skip_chars(&mut self, n: usize)
        requires
            old(self).wf(),
            old(self).row + n <= old(self).source@.len(),
        ensures
            final(self).wf(),
            final(self).source == old(self).source,
            final(self).line == old(self).line,
            final(self).row == old(self).row + n,
    {
        let mut k: usize = 0;
        while k < n
            invariant
                self.wf(),
                self.source == old(self).source,
                self.line == old(self).line,
                k <= n,
                self.row == old(self).row + k,
                old(self).row + n <= self.source@.len(),
            decreases n - k,
        {
            self.get_next_char();
            k = k + 1;
        }
    }

    /// Reads the body of a string literal up to and with its closing `delim`.
    #[verifier::loop_isolation(false)]
    fn scan_string(&mut self, delim: char) -> (r: Result<(), LexError>)
        requires
            old(self).wf(),
            old(self).row <= old(self).source@.len(),
        ensures
            final(self).wf(),
            final(self).source == old(self).source,
            final(self).line == old(self).line,
            old(self).row <= final(self).row <= old(self).source@.len(),
            match string_end(old(self).source@, old(self).row as int, delim) {
                Ok(e) => r is Ok && final(self).row == e,
                Err((f, at)) => r is Err && error_is(r->Err_0, old(self).source@, f, at),
            },
    {
        let ghost s = self.source@;
        let ghost i = self.row as int;
        loop
            invariant
                self.wf(),
                self.source == old(self).source,
                s == self.source@,
                s == old(self).source@,
                i == old(self).row,
                i <= self.row <= s.len(),
                self.line == old(self).line,
                string_end(s, self.row as int, delim) == string_end(s, i, delim),
            decreases s.len() - self.row,
        {
            if self.at_end() {
                return Err(self.error(LexFault::UnterminatedString, String::new()));
            }
            let c = self.get_next_char();
            if c == '\\' {
                if self.at_end() {
                    return Err(self.error(LexFault::UnterminatedEscape, String::new()));
                }
                self.get_next_char();
                continue;
            }
            if c == delim {
                break;
            }
        }
        Ok(())
    }

    /// Reads the rest of a number literal whose first character was read.
    #[verifier::loop_isolation(false)]
    fn scan_number(&mut self)
        requires
            old(self).wf(),
            old(self).row <= old(self).source@.len(),
            old(self).row >= 1,
        ensures
            final(self).wf(),
            final(self).source == old(self).source,
            final(self).line == old(self).line,
            old(self).row <= final(self).row <= old(self).source@.len(),
            final(self).row == number_end(old(self).source@, old(self).row - 1),
    {
        let ghost s = self.source@;
        let ghost i = self.row as int;
        loop
            invariant
                self.wf(),
                self.source == old(self).source,
                s == self.source@,
                s == old(self).source@,
                i == old(self).row,
                i <= self.row <= s.len(),
                self.line == old(self).line,
                number_run(s, self.row as int) == number_run(s, i),
            decreases s.len() - self.row,
        {
            let c = self.get_current_char();
            if !(c != '\0' && (is_numeric(c) || c == '_' || c == '.' || c == 'x')) {
                break;
            }
            self.get_next_char();
        }
        let c = self.get_current_char();
        if c == 'e' || c == 'E' {
            self.get_next_char();
            let sign = self.get_current_char();
            if sign == '+' || sign == '-' {
                self.get_next_char();
            }
            let ghost b = self.row as int;
            loop
                invariant
                    self.wf(),
                    self.source == old(self).source,
                    s == self.source@,
                    s == old(self).source@,
                    i == old(self).row,
                    i <= self.row <= s.len(),
                    self.line == old(self).line,
                    digit_run(s, self.row as int) == digit_run(s, b),
                decreases s.len() - self.row,
            {
                let c = self.get_current_char();
                if !(c != '\0' && is_numeric(c)) {
                    break;
                }
                self.get_next_char();
            }
        }
    }

    /// Reads the rest of a word whose first character was read.
    #[verifier::loop_isolation(false)]
    fn scan_word(&mut self)
        requires
            old(self).wf(),
            old(self).row <= old(self).source@.len(),
            old(self).row >= 1,
        ensures
            final(self).wf(),
            final(self).source == old(self).source,
            final(self).line == old(self).line,
            old(self).row <= final(self).row <= old(self).source@.len(),
            final(self).row == word_end(old(self).source@, old(self).row - 1),
    {
        let ghost s = self.source@;
        let ghost i = self.row as int;
        loop
            invariant
                self.wf(),
                self.source == old(self).source,
                s == self.source@,
                s == old(self).source@,
                i == old(self).row,
                i <= self.row <= s.len(),
                self.line == old(self).line,
                word_run(s, self.row as int) == word_run(s, i),
            decreases s.len() - self.row,
        {
            let c = self.get_current_char();
            if !(c != '\0' && (is_alphabetic(c) || is_numeric(c) || c == '_')) {
                break;
            }
            self.get_next_char();
        }
    }

    /// Reads the next token: skips whitespace and comments, then reads the
    /// longest token that starts there. At the end of the input this is the
    /// `EOF` token.
    #[verifier::loop_isolation(false)]
    pub fn next(&mut self) -> (r: Result<Token, LexError>)
        requires
            old(self).wf(),
            old(self).row < usize::MAX,
        ensures
            final(self).wf(),
            final(self).source == old(self).source,
            final(self).line == old(self).line,
            lexed(old(self).source@, old(self).row as int, r, final(self).row as int),
    {
        let ghost s = self.source@;
        let ghost i = self.row as int;
        let mut saw_line_terminator = false;
        loop
            invariant
                self.wf(),
                self.source == old(self).source,
                self.line == old(self).line,
                s == self.source@,
                i <= self.row,
                self.row == i || self.row <= s.len(),
                i < usize::MAX,
                trivia(s, self.row as int).0 == trivia(s, i).0,
                trivia(s, self.row as int).2 == trivia(s, i).2,
                trivia(s, i).1 == (saw_line_terminator || trivia(s, self.row as int).1),
            decreases s.len() - self.row,
        {
            match self.skip_spaces() {
                Ok(nl) => {
                    saw_line_terminator = saw_line_terminator || nl;
                },
                Err(e) => return Err(e),
            }
            let c = self.get_current_char();
            if c == '\u{000D}' {
                let ghost k = self.row as int;
                self.get_next_char();
                proof {
                    assert(trivia(s, k) == (trivia(s, k + 1).0, true, trivia(s, k + 1).2));
                }
                let lf = self.eat_char('\u{000A}');
                proof {
                    if lf {
                        assert(trivia(s, k + 1) == (trivia(s, k + 2).0, true, trivia(s, k + 2).2));
                    }
                }
                saw_line_terminator = true;
                continue;
            }
            if c == '\u{000A}' {
                self.get_next_char();
                saw_line_terminator = true;
                continue;
            }
            break;
        }
        let start = self.row;
        let line = self.cursor.line;
        let col = self.cursor.row;
        if self.at_end() {
            self.get_next_char();
            return Ok(
                Token {
                    content: "EOF".to_string(),
                    kind: TokenKind::EOF,
                    line_terminator_before: saw_line_terminator,
                    line,
                    col,
                },
            );
        }
        let x = self.get_current_char();
        let b = self.peek_char(1);
        let c = self.peek_char(2);
        let d = self.peek_char(3);
        let found: Option<(usize, TokenKind)> = match punct4_kind(x, b, c, d) {
            Some(k) => Some((4, k)),
            None => match punct3_kind(x, b, c) {
                Some(k) => Some((3, k)),
                None => match punct2_kind(x, b) {
                    Some(k) => Some((2, k)),
                    None => match punct1_kind(x) {
                        Some(k) => Some((1, k)),
                        None => None,
                    },
                },
            },
        };
        if let Some((n, kind)) = found {
            proof {
                let t = s.subrange(start as int, start + n);
                assert(forall|j: int| 0 <= j < n ==> t[j] == char_at(s, start + j));
            }
            self.skip_chars(n);
            let content = self.text(start, self.row);
            return Ok(Token { content, kind, line_terminator_before: saw_line_terminator, line, col });
        }
        if x == '\'' || x == '"' {
            self.get_next_char();
            match self.scan_string(x) {
                Ok(()) => {},
                Err(e) => return Err(e),
            }
            let content = self.text(start, self.row);
            return Ok(
                Token {
                    content,
                    kind: TokenKind::String,
                    line_terminator_before: saw_line_terminator,
                    line,
                    col,
                },
            );
        }
        if is_numeric(x) {
            self.get_next_char();
            self.scan_number();
            let next = self.get_current_char();
            if is_alphabetic(next) || next == '$' || next == '_' {
                return Err(self.error(LexFault::MissingSeparator, String::new()));
            }
            let content = self.text(start, self.row);
            return Ok(
                Token {
                    content,
                    kind: TokenKind::Number,
                    line_terminator_before: saw_line_terminator,
                    line,
                    col,
                },
            );
        }
        if is_alphabetic(x) || x == '$' || x == '_' {
            self.get_next_char();
            self.scan_word();
            let content = self.text(start, self.row);
            let kind = Self::keyword_kind(content.as_str());
            return Ok(Token { content, kind, line_terminator_before: saw_line_terminator, line, col });
        }
        let found = self.text(start, start + 1);
        self.get_next_char();
        Err(self.error(LexFault::UnknownTokenStart, found))
    }


    /// Reads all tokens to the end of the input, the `EOF` token last.
    #[verifier::loop_isolation(false)]
    pub fn walk(&mut self) -> (r: Result<Vec<Token>, LexError>)
        requires
            old(self).wf(),
            old(self).row < usize::MAX,
        ensures
            final(self).wf(),
            final(self).source == old(self).source,
            walked(old(self).source@, old(self).row as int, r),
            r is Ok ==> {
                let v = r->Ok_0@;
                &&& v.len() > 0
                &&& v.last().kind == TokenKind::EOF
                &&& forall|k: int| 0 <= k < v.len() - 1 ==> v[k].kind != TokenKind::EOF
            },
    {
        let ghost s = self.source@;
        let ghost i = self.row as int;
        let ghost mut read: Seq<(TokenKind, int, int, bool)> = Seq::empty();
        let mut output: Vec<Token> = Vec::new();
        loop
            invariant
                self.wf(),
                self.row < usize::MAX,
                self.source == old(self).source,
                s == self.source@,
                output@.len() == read.len(),
                forall|k: int| 0 <= k < read.len() ==> #[trigger] token_is(output@[k], s, read[k].0, read[k].1, read[k].2, read[k].3),
                tokens_from(s, i) == after(read, tokens_from(s, self.row as int)),
            decreases s.len() - self.row,
        {
            let ghost j = self.row as int;
            proof {
                lemma_scan_advances(s, j);
            }
            let token = match self.next() {
                Ok(t) => t,
                Err(e) => return Err(e),
            };
            let ghost t = scan(s, j)->Ok_0;
            let eof = token.kind == TokenKind::EOF;
            output.push(token);
            proof {
                if !eof {
                    assert(read.push(t) + tokens_from(s, t.2)->Ok_0 =~= read + (seq![t] + tokens_from(s, t.2)->Ok_0));
                } else {
                    assert(tokens_from(s, j) == Ok::<Seq<(TokenKind, int, int, bool)>, (LexFault, int)>(seq![t]));
                    assert(read.push(t) =~= read + seq![t]);
                }
                read = read.push(t);
            }
            if eof {
                break;
            }
        }
        proof {
            lemma_tokens_end_with_eof(s, i);
            assert forall|k: int| 0 <= k < output@.len() implies output@[k].kind == read[k].0 by {
                assert(token_is(output@[k], s, read[k].0, read[k].1, read[k].2, read[k].3));
            }
            assert(tokens_from(s, i) == Ok::<Seq<(TokenKind, int, int, bool)>, (LexFault, int)>(read));
            assert(output@.last().kind == read.last().0);
            assert forall|k: int| 0 <= k < output@.len() - 1 implies output@[k].kind != TokenKind::EOF by {
                assert(output@[k].kind == read[k].0);
                assert(read[k].0 != TokenKind::EOF);
            }
        }
        Ok(output)
    }

}

/// Lexing is a function of the source: two results of reading the same
/// source from the same index agree on every token and on the error.
pub proof fn lemma_lexing_is_deterministic(
    s: Seq<char>,
    i: int,
    a: Result<Vec<Token>, LexError>,
    b: Result<Vec<Token>, LexError>,
)
    requires
        walked(s, i, a),
        walked(s, i, b),
    ensures
        a is Ok <==> b is Ok,
        a is Ok ==> {
            let (x, y) = (a->Ok_0@, b->Ok_0@);
            &&& x.len() == y.len()
            &&& forall|k: int| 0 <= k < x.len() ==> same_token(#[trigger] x[k], y[k])
        },
        a is Err ==> {
            let (x, y) = (a->Err_0, b->Err_0);
            x.fault == y.fault && x.line == y.line && x.col == y.col
        },
{
    if tokens_from(s, i) is Ok {
        let ts = tokens_from(s, i)->Ok_0;
        assert forall|k: int| 0 <= k < a->Ok_0@.len() implies same_token(#[trigger] a->Ok_0@[k], b->Ok_0@[k]) by {
            assert(token_is(a->Ok_0@[k], s, ts[k].0, ts[k].1, ts[k].2, ts[k].3));
            assert(token_is(b->Ok_0@[k], s, ts[k].0, ts[k].1, ts[k].2, ts[k].3));
        }
    }
}

/// Two tokens that are alike in every field.
pub open spec fn same_token(x: Token, y: Token) -> bool {
    &&& x.kind == y.kind
    &&& x.content@ == y.content@
    &&& x.line_terminator_before == y.line_terminator_before
    &&& x.line == y.line
    &&& x.col == y.col
}

} // verus!
