//! Builds a syntax tree from tokens by recursive descent, one function per
//! level of operator precedence.
use vstd::prelude::*;
use vstd::string::{StrSliceExecFns, StringExecFns};

use crate::ast;
use crate::grammar::{self, Parsed};
use crate::lexer::{Token, TokenKind};
use crate::syntax::{
    decls_view, expr_view, exprs_view, lemma_decls_view_names, for_init_view, function_view, lemma_decls_view_push, lemma_exprs_view_push,
    lemma_names_view_push, lemma_props_view_push, lemma_stmts_view_push, names_view, props_view, stmt_view,
    stmts_view, SExpr, SFunction, SKey, SLiteral, SStmt,
};

verus! {

/// A grammar error: what was expected, and the token at which it was found
/// (its index among the tokens, and its zero-based line and column).
#[derive(Debug)]
pub struct ParseError {
    pub message: String,
    pub token: usize,
    pub line: usize,
    pub col: usize,
}

/// The parser: the tokens, the index of the next one, whether the `in`
/// operator is allowed where a relational expression may continue (it is not
/// in the head of a `for` loop), and the source text, for diagnostics.
pub struct Parser {
    pub tokens: Vec<Token>,
    pub pos: usize,
    pub allow_in: bool,
    pub source: String,
}

pub open spec fn expr_outcome(r: Result<ast::Expr, ParseError>, pos: usize) -> Parsed<SExpr> {
    match r {
        Ok(e) => Ok((expr_view(e), pos as int)),
        Err(e) => Err(e.token as int),
    }
}

pub open spec fn stmt_outcome(r: Result<ast::Stmt, ParseError>, pos: usize) -> Parsed<SStmt> {
    match r {
        Ok(s) => Ok((stmt_view(s), pos as int)),
        Err(e) => Err(e.token as int),
    }
}

pub open spec fn stmts_outcome(r: Result<Vec<ast::Stmt>, ParseError>, pos: usize) -> Parsed<Seq<SStmt>> {
    match r {
        Ok(s) => Ok((stmts_view(s@), pos as int)),
        Err(e) => Err(e.token as int),
    }
}

pub open spec fn function_outcome(r: Result<ast::Function, ParseError>, pos: usize) -> Parsed<SFunction> {
    match r {
        Ok(f) => Ok((function_view(f), pos as int)),
        Err(e) => Err(e.token as int),
    }
}

pub open spec fn props_outcome(r: Result<Vec<(ast::PropertyKey, ast::Expr)>, ParseError>, pos: usize) -> Parsed<
    Seq<(SKey, SExpr)>,
> {
    match r {
        Ok(v) => Ok((props_view(v@), pos as int)),
        Err(e) => Err(e.token as int),
    }
}

pub open spec fn decls_outcome(r: Result<Vec<(String, Option<ast::Expr>)>, ParseError>, pos: usize) -> Parsed<
    Seq<(Seq<char>, Option<SExpr>)>,
> {
    match r {
        Ok(v) => Ok((decls_view(v@), pos as int)),
        Err(e) => Err(e.token as int),
    }
}

pub open spec fn names_outcome(r: Result<Vec<String>, ParseError>, pos: usize) -> Parsed<Seq<Seq<char>>> {
    match r {
        Ok(v) => Ok((names_view(v@), pos as int)),
        Err(e) => Err(e.token as int),
    }
}

pub open spec fn unit_outcome(r: Result<(), ParseError>, pos: usize) -> Result<int, int> {
    match r {
        Ok(()) => Ok(pos as int),
        Err(e) => Err(e.token as int),
    }
}

pub open spec fn program_outcome(r: Result<ast::Program, ParseError>) -> Result<Seq<SStmt>, int> {
    match r {
        Ok(p) => Ok(stmts_view(p.body@)),
        Err(e) => Err(e.token as int),
    }
}

pub open spec fn name_view(n: Option<String>) -> Option<Seq<char>> {
    match n {
        Some(s) => Some(s@),
        None => None,
    }
}

/// An error reports a token at or after index `from`, with its line and
/// column.
pub open spec fn located<T>(r: Result<T, ParseError>, tokens: Seq<Token>, from: int) -> bool {
    r is Err ==> from <= r->Err_0.token && reports(r->Err_0, tokens, r->Err_0.token as int)
}

/// Whether `e` reports the token at index `k` of `tokens`.
pub open spec fn reports(e: ParseError, tokens: Seq<Token>, k: int) -> bool {
    &&& e.token == k
    &&& 0 <= k < tokens.len()
    &&& e.line == tokens[k].line
    &&& e.col == tokens[k].col
}

/// The assignment operator that a token kind spells.
pub open spec fn assign_op_of(kind: TokenKind) -> Option<ast::AssignOp> {
    match kind {
        TokenKind::Equal => Some(ast::AssignOp::Assign),
        TokenKind::PlusEqual => Some(ast::AssignOp::AddAssign),
        TokenKind::MinusEqual => Some(ast::AssignOp::SubAssign),
        TokenKind::AsteriskEqual => Some(ast::AssignOp::MulAssign),
        TokenKind::SlashEqual => Some(ast::AssignOp::DivAssign),
        TokenKind::ModuloEqual => Some(ast::AssignOp::ModAssign),
        TokenKind::LeftShiftEqual => Some(ast::AssignOp::ShlAssign),
        TokenKind::RightShiftEqual => Some(ast::AssignOp::ShrAssign),
        TokenKind::TripleGreaterThanEqual => Some(ast::AssignOp::UShrAssign),
        TokenKind::AmpersandEqual => Some(ast::AssignOp::BitAndAssign),
        TokenKind::CaretEqual => Some(ast::AssignOp::BitXorAssign),
        TokenKind::BarEqual => Some(ast::AssignOp::BitOrAssign),
        _ => None,
    }
}

/// The binary operator that a token kind spells at a level of precedence:
/// 0 multiplicative, 1 additive, 2 shift, 3 relational (with `in` only where
/// it is allowed), 4 equality, 5 `&`, 6 `^`, 7 `|`, 8 `&&`, 9 `||`.
pub open spec fn binary_op_of(kind: TokenKind, level: u8, allow_in: bool) -> Option<ast::BinOp> {
    match (level, kind) {
        (0, TokenKind::Asterisk) => Some(ast::BinOp::Mul),
        (0, TokenKind::Slash) => Some(ast::BinOp::Div),
        (0, TokenKind::Modulo) => Some(ast::BinOp::Mod),
        (1, TokenKind::Plus) => Some(ast::BinOp::Add),
        (1, TokenKind::Minus) => Some(ast::BinOp::Sub),
        (2, TokenKind::LeftShift) => Some(ast::BinOp::Shl),
        (2, TokenKind::RightShift) => Some(ast::BinOp::Shr),
        (2, TokenKind::TripleGreaterThan) => Some(ast::BinOp::UShr),
        (3, TokenKind::LessThan) => Some(ast::BinOp::Lt),
        (3, TokenKind::GreaterThan) => Some(ast::BinOp::Gt),
        (3, TokenKind::GreaterThanEqual) => Some(ast::BinOp::Ge),
        (3, TokenKind::LessThanEqual) => Some(ast::BinOp::Le),
        (3, TokenKind::In) => if allow_in {
            Some(ast::BinOp::In)
        } else {
            None
        },
        (4, TokenKind::DoubleEqual) => Some(ast::BinOp::Eq),
        (4, TokenKind::NotEqual) => Some(ast::BinOp::Ne),
        (5, TokenKind::Ampersand) => Some(ast::BinOp::BitAnd),
        (6, TokenKind::Caret) => Some(ast::BinOp::BitXor),
        (7, TokenKind::Bar) => Some(ast::BinOp::BitOr),
        (8, TokenKind::And) => Some(ast::BinOp::And),
        (9, TokenKind::Or) => Some(ast::BinOp::Or),
        _ => None,
    }
}

/// The prefix operator that a token kind spells: a unary operator, or an
/// update (`++`, `--`).
pub open spec fn prefix_op_of(kind: TokenKind) -> Option<ast::UnaryOp> {
    match kind {
        TokenKind::Delete => Some(ast::UnaryOp::Delete),
        TokenKind::Void => Some(ast::UnaryOp::Void),
        TokenKind::Typeof => Some(ast::UnaryOp::Typeof),
        TokenKind::DoublePlus => Some(ast::UnaryOp::PreInc),
        TokenKind::DoubleMinus => Some(ast::UnaryOp::PreDec),
        TokenKind::Plus => Some(ast::UnaryOp::Pos),
        TokenKind::Minus => Some(ast::UnaryOp::Neg),
        TokenKind::Wave => Some(ast::UnaryOp::BitNot),
        TokenKind::Exclamation => Some(ast::UnaryOp::Not),
        _ => None,
    }
}

/// A statement may end here without a `;`: before `}`, at the end of the
/// input, or where a line terminator comes first.
pub open spec fn may_end_statement(t: Token) -> bool {
    t.kind == TokenKind::CloseCurly || t.kind == TokenKind::EOF || t.line_terminator_before
}

/// The text of a string literal without its quotes.
pub open spec fn unquoted(t: Seq<char>) -> Seq<char> {
    if t.len() >= 2 && (t[0] == '\'' || t[0] == '"') {
        t.subrange(1, t.len() - 1)
    } else {
        t
    }
}

pub open spec fn is_ascii_digit(c: char) -> bool {
    '0' <= c <= '9'
}

/// The end of the run of ASCII digits at `i`.
pub open spec fn digits_end(t: Seq<char>, i: int) -> int
    decreases t.len() - i,
{
    if 0 <= i < t.len() && is_ascii_digit(t[i]) {
        digits_end(t, i + 1)
    } else {
        i
    }
}

/// Whether `t` is a decimal literal: digits, then an optional `.` and
/// digits, with at least one digit in all, then an optional exponent (`e` or
/// `E`, an optional sign, and at least one digit), and nothing else.
pub open spec fn is_decimal_literal(t: Seq<char>) -> bool {
    let m = digits_end(t, 0);
    let f = if m < t.len() && t[m] == '.' {
        digits_end(t, m + 1)
    } else {
        m
    };
    let has_digits = m > 0 || f > m + 1;
    let e = if f < t.len() && (t[f] == 'e' || t[f] == 'E') {
        let k = if f + 1 < t.len() && (t[f + 1] == '+' || t[f + 1] == '-') {
            f + 2
        } else {
            f + 1
        };
        if digits_end(t, k) > k {
            digits_end(t, k)
        } else {
            -1
        }
    } else {
        f
    };
    has_digits && e == t.len()
}

impl Parser {
    /// The tokens end with `EOF`, and `pos` is within them.
    pub open spec fn wf(&self) -> bool {
        &&& self.tokens@.len() > 0
        &&& self.tokens@.last().kind == TokenKind::EOF
        &&& self.pos < self.tokens@.len()
    }

    /// `self` is `before` after reading on: the same tokens, source and
    /// `allow_in`, and no token given back.
    pub open spec fn follows(&self, before: &Parser) -> bool {
        &&& self.tokens@ == before.tokens@
        &&& self.source == before.source
        &&& self.allow_in == before.allow_in
        &&& before.pos <= self.pos
        &&& self.wf()
    }

    /// The kind of the next token.
    pub open spec fn next_kind(&self) -> TokenKind {
        self.tokens@[self.pos as int].kind
    }

    /// The measure that each parsing function decreases: tokens left.
    pub open spec fn left(&self) -> int {
        self.tokens@.len() - self.pos
    }

    fn peek(&self) -> (r: &Token)
        requires
            self.wf(),
        ensures
            *r == self.tokens@[self.pos as int],
    {
        &self.tokens[self.pos]
    }

    fn advance(&mut self)
        requires
            old(self).wf(),
            old(self).next_kind() != TokenKind::EOF,
        ensures
            final(self).follows(old(self)),
            final(self).pos == old(self).pos + 1,
    {
        let n = self.tokens.len();
        proof {
            assert(self.tokens@[self.pos as int].kind != self.tokens@[n - 1].kind);
        }
        self.pos = self.pos + 1;
    }

    /// Reads the next token where it is of `kind`.
    fn check_kind(&mut self, kind: TokenKind) -> (r: bool)
        requires
            old(self).wf(),
            kind != TokenKind::EOF,
        ensures
            final(self).follows(old(self)),
            r == (old(self).next_kind() == kind),
            final(self).pos == if r { old(self).pos + 1 } else { old(self).pos as int },
    {
        if self.peek().kind == kind {
            self.advance();
            true
        } else {
            false
        }
    }

    /// An error at the next token.
    fn error(&self, msg: &str) -> (e: ParseError)
        requires
            self.wf(),
        ensures
            reports(e, self.tokens@, self.pos as int),
            e.message@ == msg@,
    {
        let t = self.peek();
        ParseError { message: msg.to_string(), token: self.pos, line: t.line, col: t.col }
    }

    /// An error at the next token whose message quotes that token's text.
    fn error_quoting(&self, before: &str, after: &str) -> (e: ParseError)
        requires
            self.wf(),
        ensures
            reports(e, self.tokens@, self.pos as int),
            e.message@ == before@ + self.tokens@[self.pos as int].content@ + after@,
    {
        let t = self.peek();
        let mut message = before.to_string();
        message.append(t.content.as_str());
        message.append(after);
        ParseError { message, token: self.pos, line: t.line, col: t.col }
    }

    /// The text of a string literal token without its quotes.
    fn parse_string(x: &Token) -> (r: String)
        ensures
            r@ == unquoted(x.content@),
    {
        let s = x.content.as_str();
        let n = s.unicode_len();
        if n >= 2 {
            let c = s.get_char(0);
            if c == '\'' || c == '"' {
                return s.substring_char(1, n - 1).to_owned();
            }
        }
        x.content.clone()
    }

    /// Reads an identifier.
    fn parse_identifier(&mut self) -> (r: String)
        requires
            old(self).wf(),
            old(self).next_kind() != TokenKind::EOF,
        ensures
            final(self).follows(old(self)),
            final(self).pos == old(self).pos + 1,
            r@ == old(self).tokens@[old(self).pos as int].content@,
    {
        let name = self.peek().content.clone();
        self.advance();
        name
    }
}

fn assign_op(kind: TokenKind) -> (r: Option<ast::AssignOp>)
    ensures
        r == assign_op_of(kind),
{
    match kind {
        TokenKind::Equal => Some(ast::AssignOp::Assign),
        TokenKind::PlusEqual => Some(ast::AssignOp::AddAssign),
        TokenKind::MinusEqual => Some(ast::AssignOp::SubAssign),
        TokenKind::AsteriskEqual => Some(ast::AssignOp::MulAssign),
        TokenKind::SlashEqual => Some(ast::AssignOp::DivAssign),
        TokenKind::ModuloEqual => Some(ast::AssignOp::ModAssign),
        TokenKind::LeftShiftEqual => Some(ast::AssignOp::ShlAssign),
        TokenKind::RightShiftEqual => Some(ast::AssignOp::ShrAssign),
        TokenKind::TripleGreaterThanEqual => Some(ast::AssignOp::UShrAssign),
        TokenKind::AmpersandEqual => Some(ast::AssignOp::BitAndAssign),
        TokenKind::CaretEqual => Some(ast::AssignOp::BitXorAssign),
        TokenKind::BarEqual => Some(ast::AssignOp::BitOrAssign),
        _ => None,
    }
}

fn binary_op(kind: TokenKind, level: u8, allow_in: bool) -> (r: Option<ast::BinOp>)
    ensures
        r == binary_op_of(kind, level, allow_in),
{
    match (level, kind) {
        (0, TokenKind::Asterisk) => Some(ast::BinOp::Mul),
        (0, TokenKind::Slash) => Some(ast::BinOp::Div),
        (0, TokenKind::Modulo) => Some(ast::BinOp::Mod),
        (1, TokenKind::Plus) => Some(ast::BinOp::Add),
        (1, TokenKind::Minus) => Some(ast::BinOp::Sub),
        (2, TokenKind::LeftShift) => Some(ast::BinOp::Shl),
        (2, TokenKind::RightShift) => Some(ast::BinOp::Shr),
        (2, TokenKind::TripleGreaterThan) => Some(ast::BinOp::UShr),
        (3, TokenKind::LessThan) => Some(ast::BinOp::Lt),
        (3, TokenKind::GreaterThan) => Some(ast::BinOp::Gt),
        (3, TokenKind::GreaterThanEqual) => Some(ast::BinOp::Ge),
        (3, TokenKind::LessThanEqual) => Some(ast::BinOp::Le),
        (3, TokenKind::In) => if allow_in {
            Some(ast::BinOp::In)
        } else {
            None
        },
        (4, TokenKind::DoubleEqual) => Some(ast::BinOp::Eq),
        (4, TokenKind::NotEqual) => Some(ast::BinOp::Ne),
        (5, TokenKind::Ampersand) => Some(ast::BinOp::BitAnd),
        (6, TokenKind::Caret) => Some(ast::BinOp::BitXor),
        (7, TokenKind::Bar) => Some(ast::BinOp::BitOr),
        (8, TokenKind::And) => Some(ast::BinOp::And),
        (9, TokenKind::Or) => Some(ast::BinOp::Or),
        _ => None,
    }
}

fn prefix_op(kind: TokenKind) -> (r: Option<ast::UnaryOp>)
    ensures
        r == prefix_op_of(kind),
{
    match kind {
        TokenKind::Delete => Some(ast::UnaryOp::Delete),
        TokenKind::Void => Some(ast::UnaryOp::Void),
        TokenKind::Typeof => Some(ast::UnaryOp::Typeof),
        TokenKind::DoublePlus => Some(ast::UnaryOp::PreInc),
        TokenKind::DoubleMinus => Some(ast::UnaryOp::PreDec),
        TokenKind::Plus => Some(ast::UnaryOp::Pos),
        TokenKind::Minus => Some(ast::UnaryOp::Neg),
        TokenKind::Wave => Some(ast::UnaryOp::BitNot),
        TokenKind::Exclamation => Some(ast::UnaryOp::Not),
        _ => None,
    }
}

impl Parser {
    /// Expression: assignment expressions separated by commas; two or more
    /// make a `Sequence`.
    #[verifier::spinoff_prover]
    #[verifier::loop_isolation(false)]
    #[verifier::rlimit(60)]
    fn parse_expression(&mut self) -> (r: Result<ast::Expr, ParseError>)
        requires
            old(self).wf(),
        ensures
            final(self).follows(old(self)),
            located(r, old(self).tokens@, old(self).pos as int),
            expr_outcome(r, final(self).pos) == grammar::expression(old(self).tokens@, old(self).pos as int, old(self).allow_in),
            r is Ok ==> final(self).pos > old(self).pos,
        decreases old(self).left(), 32nat,
    {
        proof {
            reveal(grammar::expression);
            reveal(grammar::sequence);
        }
        let first = self.parse_assignment_expression()?;
        if self.peek().kind != TokenKind::Comma {
            return Ok(first);
        }
        let mut elements: Vec<ast::Expr> = Vec::new();
        elements.push(first);
        proof {
            lemma_exprs_view_push(Seq::empty(), elements@[0]);
            assert(Seq::<ast::Expr>::empty().push(elements@[0]) =~= elements@);
        }
        loop
            invariant
                self.follows(old(self)),
                self.pos > old(self).pos,
                self.next_kind() == TokenKind::Comma,
                grammar::expression(old(self).tokens@, old(self).pos as int, old(self).allow_in)
                    == grammar::sequence(self.tokens@, self.pos as int, self.allow_in, exprs_view(elements@)),
            decreases self.left(),
        {
            self.advance();
            let e = self.parse_assignment_expression()?;
            let ghost before = elements@;
            elements.push(e);
            proof {
                lemma_exprs_view_push(before, elements@[before.len() as int]);
            }
            if self.peek().kind != TokenKind::Comma {
                break;
            }
        }
        Ok(ast::Expr::Sequence(elements))
    }

    /// AssignmentExpression: a conditional expression, or a target, an
    /// assignment operator and an assignment expression (right-associative).
    #[verifier::spinoff_prover]
    fn parse_assignment_expression(&mut self) -> (r: Result<ast::Expr, ParseError>)
        requires
            old(self).wf(),
        ensures
            final(self).follows(old(self)),
            located(r, old(self).tokens@, old(self).pos as int),
            expr_outcome(r, final(self).pos) == grammar::assignment(old(self).tokens@, old(self).pos as int, old(self).allow_in),
            r is Ok ==> final(self).pos > old(self).pos,
        decreases old(self).left(), 31nat,
    {
        proof {
            reveal(grammar::assignment);
        }
        let left = self.parse_conditional_expression()?;
        if assign_op(self.peek().kind).is_some() {
            let op = self.parse_assignment_operator()?;
            let value = self.parse_assignment_expression()?;
            return Ok(ast::Expr::Assign { target: Box::new(left), op, value: Box::new(value) });
        }
        Ok(left)
    }

    /// Reads an assignment operator.
    fn parse_assignment_operator(&mut self) -> (r: Result<ast::AssignOp, ParseError>)
        requires
            old(self).wf(),
        ensures
            final(self).follows(old(self)),
            located(r, old(self).tokens@, old(self).pos as int),
            match assign_op_of(old(self).next_kind()) {
                Some(op) => r == Ok::<ast::AssignOp, ParseError>(op) && final(self).pos == old(self).pos + 1,
                None => r is Err && reports(r->Err_0, old(self).tokens@, old(self).pos as int),
            },
    {
        match assign_op(self.peek().kind) {
            Some(op) => {
                self.advance();
                Ok(op)
            },
            None => Err(self.error_quoting("illegal assignment operator '", "'")),
        }
    }

    /// ConditionalExpression: `cond ? then : else`, or a logical-or
    /// expression.
    #[verifier::spinoff_prover]
    fn parse_conditional_expression(&mut self) -> (r: Result<ast::Expr, ParseError>)
        requires
            old(self).wf(),
        ensures
            final(self).follows(old(self)),
            located(r, old(self).tokens@, old(self).pos as int),
            expr_outcome(r, final(self).pos) == grammar::conditional(old(self).tokens@, old(self).pos as int, old(self).allow_in),
            r is Ok ==> final(self).pos > old(self).pos,
        decreases old(self).left(), 30nat,
    {
        proof {
            reveal(grammar::conditional);
        }
        let cond = self.parse_binary_expression(9)?;
        if self.check_kind(TokenKind::Question) {
            let then_ = self.parse_assignment_expression()?;
            if self.check_kind(TokenKind::DoubleDot) {
                let else_ = self.parse_assignment_expression()?;
                return Ok(
                    ast::Expr::Ternary { cond: Box::new(cond), then_: Box::new(then_), else_: Box::new(else_) },
                );
            }
            return Err(self.error_quoting("expected ':' in conditional expression but found '", "'"));
        }
        Ok(cond)
    }

    /// An operand of the binary operators of `level`: an expression of the
    /// level below, or a unary expression below level 0.
    #[verifier::spinoff_prover]
    fn parse_operand(&mut self, level: u8) -> (r: Result<ast::Expr, ParseError>)
        requires
            old(self).wf(),
            level <= 9,
        ensures
            final(self).follows(old(self)),
            located(r, old(self).tokens@, old(self).pos as int),
            expr_outcome(r, final(self).pos) == grammar::operand(old(self).tokens@, old(self).pos as int, old(self).allow_in, level as nat),
            r is Ok ==> final(self).pos > old(self).pos,
        decreases old(self).left(), (5 + 2 * level) as nat,
    {
        proof {
            reveal(grammar::operand);
        }
        if level == 0 {
            self.parse_unary_expression()
        } else {
            self.parse_binary_expression(level - 1)
        }
    }

    /// The binary operators of one level of precedence (see `binary_op_of`),
    /// left-associative, over operands of the level below; level 0 is over
    /// unary expressions.
    #[verifier::spinoff_prover]
    #[verifier::loop_isolation(false)]
    fn parse_binary_expression(&mut self, level: u8) -> (r: Result<ast::Expr, ParseError>)
        requires
            old(self).wf(),
            level <= 9,
        ensures
            final(self).follows(old(self)),
            located(r, old(self).tokens@, old(self).pos as int),
            expr_outcome(r, final(self).pos) == grammar::binary(old(self).tokens@, old(self).pos as int, old(self).allow_in, level as nat),
            r is Ok ==> final(self).pos > old(self).pos,
        decreases old(self).left(), (6 + 2 * level) as nat,
    {
        proof {
            reveal(grammar::binary);
            reveal(grammar::binary_rest);
        }
        let mut expr = self.parse_operand(level)?;
        loop
            invariant
                self.follows(old(self)),
                self.pos > old(self).pos,
                level <= 9,
                grammar::binary(old(self).tokens@, old(self).pos as int, old(self).allow_in, level as nat)
                    == grammar::binary_rest(self.tokens@, self.pos as int, self.allow_in, level as nat, expr_view(expr)),
            decreases self.left(),
        {
            let op = match binary_op(self.peek().kind, level, self.allow_in) {
                Some(op) => op,
                None => break,
            };
            self.advance();
            let right = self.parse_operand(level)?;
            expr = ast::Expr::Binary { op, left: Box::new(expr), right: Box::new(right) };
        }
        Ok(expr)
    }

    /// UnaryExpression: prefix operators over a postfix expression.
    #[verifier::spinoff_prover]
    fn parse_unary_expression(&mut self) -> (r: Result<ast::Expr, ParseError>)
        requires
            old(self).wf(),
        ensures
            final(self).follows(old(self)),
            located(r, old(self).tokens@, old(self).pos as int),
            expr_outcome(r, final(self).pos) == grammar::unary(old(self).tokens@, old(self).pos as int, old(self).allow_in),
            r is Ok ==> final(self).pos > old(self).pos,
        decreases old(self).left(), 4nat,
    {
        proof {
            reveal(grammar::unary);
        }
        match prefix_op(self.peek().kind) {
            Some(op) => {
                self.advance();
                let expr = self.parse_unary_expression()?;
                Ok(
                    match op {
                        ast::UnaryOp::PreInc => ast::Expr::Update {
                            op: ast::UpdateOp::Inc,
                            prefix: true,
                            argument: Box::new(expr),
                        },
                        ast::UnaryOp::PreDec => ast::Expr::Update {
                            op: ast::UpdateOp::Dec,
                            prefix: true,
                            argument: Box::new(expr),
                        },
                        _ => ast::Expr::Unary { op, expr: Box::new(expr) },
                    },
                )
            },
            None => self.parse_postfix_expression(),
        }
    }

    /// PostfixExpression: a left-hand-side expression, then `++` or `--`
    /// unless a line terminator comes before it.
    #[verifier::spinoff_prover]
    fn parse_postfix_expression(&mut self) -> (r: Result<ast::Expr, ParseError>)
        requires
            old(self).wf(),
        ensures
            final(self).follows(old(self)),
            located(r, old(self).tokens@, old(self).pos as int),
            expr_outcome(r, final(self).pos) == grammar::postfix(old(self).tokens@, old(self).pos as int, old(self).allow_in),
            r is Ok ==> final(self).pos > old(self).pos,
        decreases old(self).left(), 3nat,
    {
        proof {
            reveal(grammar::postfix);
        }
        let expr = self.parse_member_expression(true)?;
        let tok = self.peek();
        if tok.line_terminator_before {
            return Ok(expr);
        }
        match tok.kind {
            TokenKind::DoublePlus => {
                self.advance();
                Ok(ast::Expr::Update { op: ast::UpdateOp::Inc, prefix: false, argument: Box::new(expr) })
            },
            TokenKind::DoubleMinus => {
                self.advance();
                Ok(ast::Expr::Update { op: ast::UpdateOp::Dec, prefix: false, argument: Box::new(expr) })
            },
            _ => Ok(expr),
        }
    }

    /// Arguments after `(`: assignment expressions separated by commas, up to
    /// and with `)`.
    #[verifier::spinoff_prover]
    #[verifier::loop_isolation(false)]
    fn parse_arguments(&mut self) -> (r: Result<ast::Expr, ParseError>)
        requires
            old(self).wf(),
        ensures
            final(self).follows(old(self)),
            located(r, old(self).tokens@, old(self).pos as int),
            expr_outcome(r, final(self).pos) == grammar::arguments(old(self).tokens@, old(self).pos as int, old(self).allow_in),
            r is Ok ==> final(self).pos > old(self).pos,
            r is Ok ==> r->Ok_0 is Sequence,
        decreases old(self).left(), 34nat,
    {
        proof {
            reveal(grammar::arguments);
            reveal(grammar::arguments_rest);
        }
        let mut args: Vec<ast::Expr> = Vec::new();
        if self.peek().kind == TokenKind::CloseParen {
            self.advance();
            return Ok(ast::Expr::Sequence(args));
        }
        loop
            invariant
                self.follows(old(self)),
                grammar::arguments(old(self).tokens@, old(self).pos as int, old(self).allow_in)
                    == grammar::arguments_rest(self.tokens@, self.pos as int, self.allow_in, exprs_view(args@)),
            decreases self.left(),
        {
            let e = self.parse_assignment_expression()?;
            let ghost before = args@;
            args.push(e);
            proof {
                lemma_exprs_view_push(before, args@[before.len() as int]);
            }
            match self.peek().kind {
                TokenKind::Comma => {
                    self.advance();
                },
                TokenKind::CloseParen => {
                    self.advance();
                    break;
                },
                _ => {
                    return Err(self.error("expected ',' or ')' in arguments"));
                },
            }
        }
        Ok(ast::Expr::Sequence(args))
    }

    /// The start of a member expression: a function expression, a `new`
    /// expression (whose callee takes no calls, so that the first arguments
    /// after it are its own), or a primary expression.
    #[verifier::spinoff_prover]
    fn parse_member_head(&mut self) -> (r: Result<ast::Expr, ParseError>)
        requires
            old(self).wf(),
        ensures
            final(self).follows(old(self)),
            located(r, old(self).tokens@, old(self).pos as int),
            expr_outcome(r, final(self).pos) == grammar::member_head(old(self).tokens@, old(self).pos as int, old(self).allow_in),
            r is Ok ==> final(self).pos > old(self).pos,
        decreases old(self).left(), 1nat,
    {
        proof {
            reveal(grammar::member_head);
        }
        let ghost t0 = self.tokens@;
        let ghost i0 = self.pos as int;
        let ghost a0 = self.allow_in;
        if self.peek().kind == TokenKind::Function {
            self.advance();
            let f = self.parse_function_expression()?;
            Ok(ast::Expr::Function(f))
        } else if self.peek().kind == TokenKind::New {
            self.advance();
            let callee = self.parse_member_expression(false)?;
            let ghost j = self.pos as int;
            proof {
                assert(grammar::onward(t0, i0, j));
            }
            if self.peek().kind == TokenKind::OpenParen {
                self.advance();
                let args = self.parse_arguments()?;
                let e = ast::Expr::New { callee: Box::new(callee), args: Box::new(args) };
                return Ok(e);
            }
            let none: Vec<ast::Expr> = Vec::new();
            proof {
                assert(exprs_view(none@) =~= Seq::<SExpr>::empty());
                assert(grammar::kind(t0, j) != TokenKind::OpenParen);
            }
            let args = ast::Expr::Sequence(none);
            proof {
                assert(expr_view(args) == SExpr::Sequence(Seq::empty()));
            }
            let e = ast::Expr::New { callee: Box::new(callee), args: Box::new(args) };
            Ok(e)
        } else {
            self.parse_primary_expression()
        }
    }

    /// MemberExpression: a function expression, a `new` expression or a
    /// primary expression, then any chain of `.name`, `[index]` and, where
    /// `calls`, `(arguments)`. The callee of `new` takes no calls: the first
    /// arguments after it are its own.
    #[verifier::spinoff_prover]
    #[verifier::loop_isolation(false)]
    fn parse_member_expression(&mut self, calls: bool) -> (r: Result<ast::Expr, ParseError>)
        requires
            old(self).wf(),
        ensures
            final(self).follows(old(self)),
            located(r, old(self).tokens@, old(self).pos as int),
            expr_outcome(r, final(self).pos) == grammar::member(old(self).tokens@, old(self).pos as int, old(self).allow_in, calls),
            r is Ok ==> final(self).pos > old(self).pos,
        decreases old(self).left(), 2nat,
    {
        proof {
            reveal(grammar::member);
            reveal(grammar::member_rest);
        }
        let mut expr = self.parse_member_head()?;
        loop
            invariant
                self.follows(old(self)),
                self.pos > old(self).pos,
                grammar::member(old(self).tokens@, old(self).pos as int, old(self).allow_in, calls)
                    == grammar::member_rest(self.tokens@, self.pos as int, self.allow_in, calls, expr_view(expr)),
            decreases self.left(),
        {
            match self.peek().kind {
                TokenKind::OpenParen => {
                    if !calls {
                        break;
                    }
                    self.advance();
                    let args = self.parse_arguments()?;
                    expr = ast::Expr::Call { callee: Box::new(expr), args: Box::new(args) };
                },
                TokenKind::OpenBracket => {
                    self.advance();
                    let index = self.parse_expression()?;
                    if !self.check_kind(TokenKind::CloseBracket) {
                        return Err(self.error("expected ']'"));
                    }
                    expr = ast::Expr::Index { object: Box::new(expr), index: Box::new(index) };
                },
                TokenKind::Dot => {
                    self.advance();
                    if self.peek().kind != TokenKind::Identifier {
                        return Err(self.error("expected identifier after '.'"));
                    }
                    let name = self.parse_identifier();
                    expr = ast::Expr::Member { object: Box::new(expr), property: name };
                },
                _ => break,
            }
        }
        Ok(expr)
    }

    /// PrimaryExpression: `this`, a name, a literal, an array or object
    /// literal, or a parenthesised expression.
    #[verifier::spinoff_prover]
    #[verifier::rlimit(100)]
    fn parse_primary_expression(&mut self) -> (r: Result<ast::Expr, ParseError>)
        requires
            old(self).wf(),
        ensures
            final(self).follows(old(self)),
            located(r, old(self).tokens@, old(self).pos as int),
            expr_outcome(r, final(self).pos) == grammar::primary(old(self).tokens@, old(self).pos as int, old(self).allow_in),
            r is Ok ==> final(self).pos > old(self).pos,
        decreases old(self).left(), 0nat,
    {
        proof {
            reveal(grammar::primary);
        }
        let kind = self.peek().kind;
        match kind {
            TokenKind::This => {
                self.advance();
                Ok(ast::Expr::This)
            },
            TokenKind::Undefined => {
                self.advance();
                Ok(ast::Expr::Literal(ast::Literal::Undefined))
            },
            TokenKind::Identifier => {
                let name = self.parse_identifier();
                Ok(ast::Expr::Identifier(name))
            },
            TokenKind::String => {
                let s = Self::parse_string(self.peek());
                self.advance();
                Ok(ast::Expr::Literal(ast::Literal::String(s)))
            },
            TokenKind::True => {
                self.advance();
                Ok(ast::Expr::Literal(ast::Literal::Bool(true)))
            },
            TokenKind::False => {
                self.advance();
                Ok(ast::Expr::Literal(ast::Literal::Bool(false)))
            },
            TokenKind::Null => {
                self.advance();
                Ok(ast::Expr::Literal(ast::Literal::Null))
            },
            TokenKind::Number => {
                let text = self.parse_number()?;
                Ok(ast::Expr::Literal(ast::Literal::Number(text)))
            },
            TokenKind::OpenBracket => {
                self.advance();
                self.parse_array()
            },
            TokenKind::OpenCurly => {
                self.advance();
                self.parse_object()
            },
            TokenKind::OpenParen => {
                self.advance();
                let expr = self.parse_expression()?;
                if self.peek().kind != TokenKind::CloseParen {
                    return Err(self.error_quoting("Unexpected token '", "', expected ')'"));
                }
                self.advance();
                Ok(expr)
            },
            _ => Err(self.error_quoting("unexpected token '", "' in expression")),
        }
    }

    /// Reads a number token, whose text must be a decimal literal.
    fn parse_number(&mut self) -> (r: Result<String, ParseError>)
        requires
            old(self).wf(),
            old(self).next_kind() == TokenKind::Number,
        ensures
            final(self).follows(old(self)),
            located(r, old(self).tokens@, old(self).pos as int),
            ({
                let t = old(self).tokens@[old(self).pos as int];
                match r {
                    Ok(text) => is_decimal_literal(t.content@) && text@ == t.content@ && final(self).pos == old(self).pos + 1,
                    Err(e) => !is_decimal_literal(t.content@) && reports(e, old(self).tokens@, old(self).pos as int),
                }
            }),
    {
        if !decimal_literal(self.peek().content.as_str()) {
            return Err(self.error_quoting("invalid number literal '", "'"));
        }
        Ok(self.parse_identifier())
    }

    /// ArrayLiteral after `[`: elements separated by commas, up to and with
    /// `]`. A comma with no element before it, or one right before `]`, gives
    /// an `Undefined` element.
    #[verifier::spinoff_prover]
    #[verifier::loop_isolation(false)]
    #[verifier::rlimit(60)]
    fn parse_array(&mut self) -> (r: Result<ast::Expr, ParseError>)
        requires
            old(self).wf(),
        ensures
            final(self).follows(old(self)),
            located(r, old(self).tokens@, old(self).pos as int),
            expr_outcome(r, final(self).pos) == grammar::array_rest(old(self).tokens@, old(self).pos as int, old(self).allow_in, Seq::empty()),
            r is Ok ==> final(self).pos > old(self).pos,
            r is Ok ==> r->Ok_0 matches ast::Expr::Literal(ast::Literal::Array(_)),
        decreases old(self).left(), 33nat,
    {
        proof {
            reveal(grammar::array_rest);
        }
        let mut elements: Vec<ast::Expr> = Vec::new();
        loop
            invariant
                self.follows(old(self)),
                grammar::array_rest(old(self).tokens@, old(self).pos as int, old(self).allow_in, Seq::empty())
                    == grammar::array_rest(self.tokens@, self.pos as int, self.allow_in, exprs_view(elements@)),
            decreases self.left(),
        {
            let kind = self.peek().kind;
            if kind == TokenKind::CloseBracket {
                self.advance();
                break;
            }
            if kind == TokenKind::Comma {
                self.advance();
                let ghost before = elements@;
                elements.push(ast::Expr::Literal(ast::Literal::Undefined));
                proof {
                    lemma_exprs_view_push(before, elements@[before.len() as int]);
                }
                continue;
            }
            let e = self.parse_assignment_expression()?;
            let ghost before = elements@;
            elements.push(e);
            proof {
                lemma_exprs_view_push(before, elements@[before.len() as int]);
            }
            match self.peek().kind {
                TokenKind::Comma => {
                    self.advance();
                    if self.peek().kind == TokenKind::CloseBracket {
                        let ghost before2 = elements@;
                        elements.push(ast::Expr::Literal(ast::Literal::Undefined));
                        proof {
                            lemma_exprs_view_push(before2, elements@[before2.len() as int]);
                        }
                    }
                },
                TokenKind::CloseBracket => {
                    self.advance();
                    break;
                },
                _ => {
                    return Err(self.error("expected ',' or ']' in array"));
                },
            }
        }
        Ok(ast::Expr::Literal(ast::Literal::Array(elements)))
    }

    /// ObjectLiteral after `{`: properties up to and with `}`.
    #[verifier::spinoff_prover]
    #[verifier::rlimit(60)]
    fn parse_object(&mut self) -> (r: Result<ast::Expr, ParseError>)
        requires
            old(self).wf(),
        ensures
            final(self).follows(old(self)),
            located(r, old(self).tokens@, old(self).pos as int),
            expr_outcome(r, final(self).pos) == grammar::object_of(
                old(self).tokens@,
                old(self).pos as int,
                grammar::properties(old(self).tokens@, old(self).pos as int, old(self).allow_in, Seq::empty()),
            ),
            r is Ok ==> final(self).pos > old(self).pos,
        decreases old(self).left(), 35nat,
    {
        if self.check_kind(TokenKind::CloseCurly) {
            let v: Vec<(ast::PropertyKey, ast::Expr)> = Vec::new();
            proof {
                assert(props_view(v@) =~= Seq::<(SKey, SExpr)>::empty());
            }
            return Ok(ast::Expr::Literal(ast::Literal::Object(v)));
        }
        let props = self.parse_property_name_and_value_list()?;
        if !self.check_kind(TokenKind::CloseCurly) {
            return Err(self.error("expected '}' after object"));
        }
        Ok(ast::Expr::Literal(ast::Literal::Object(props)))
    }

    /// Properties `key: value` separated by commas; a key is a name, a string
    /// or a number.
    #[verifier::spinoff_prover]
    #[verifier::loop_isolation(false)]
    #[verifier::rlimit(60)]
    fn parse_property_name_and_value_list(&mut self) -> (r: Result<Vec<(ast::PropertyKey, ast::Expr)>, ParseError>)
        requires
            old(self).wf(),
        ensures
            final(self).follows(old(self)),
            located(r, old(self).tokens@, old(self).pos as int),
            props_outcome(r, final(self).pos) == grammar::properties(old(self).tokens@, old(self).pos as int, old(self).allow_in, Seq::empty()),
            r is Ok ==> final(self).pos > old(self).pos,
            r is Ok ==> r->Ok_0@.len() > 0,
        decreases old(self).left(), 34nat,
    {
        proof {
            reveal(grammar::properties);
        }
        let mut props: Vec<(ast::PropertyKey, ast::Expr)> = Vec::new();
        loop
            invariant
                self.follows(old(self)),
                props@.len() > 0 ==> self.pos > old(self).pos,
                grammar::properties(old(self).tokens@, old(self).pos as int, old(self).allow_in, Seq::empty())
                    == grammar::properties(self.tokens@, self.pos as int, self.allow_in, props_view(props@)),
            decreases self.left(),
        {
            let kind = self.peek().kind;
            let key = if kind == TokenKind::String {
                let s = Self::parse_string(self.peek());
                self.advance();
                ast::PropertyKey::String(s)
            } else if kind == TokenKind::Number {
                ast::PropertyKey::Number(self.parse_number()?)
            } else if kind == TokenKind::Identifier {
                ast::PropertyKey::Identifier(self.parse_identifier())
            } else {
                return Err(
                    self.error_quoting("Expected a String or a Number or an Identifier but found '", "'"),
                );
            };
            if !self.check_kind(TokenKind::DoubleDot) {
                return Err(self.error_quoting("Expected ':' in object but found '", "'"));
            }
            let value = self.parse_assignment_expression()?;
            let ghost before = props@;
            props.push((key, value));
            proof {
                lemma_props_view_push(before, props@[before.len() as int]);
            }
            if !self.check_kind(TokenKind::Comma) {
                break;
            }
        }
        Ok(props)
    }
}

impl Parser {
    /// The kind of the token `offset` places on, or `EOF` past the end.
    fn kind_at(&self, offset: usize) -> (r: TokenKind)
        requires
            self.wf(),
        ensures
            self.pos + offset < self.tokens@.len() ==> r == self.tokens@[self.pos + offset].kind,
            self.pos + offset >= self.tokens@.len() ==> r == TokenKind::EOF,
    {
        let n = self.tokens.len();
        if offset < n - self.pos {
            self.tokens[self.pos + offset].kind
        } else {
            TokenKind::EOF
        }
    }

    /// Whether the `{` at the next token opens an object literal rather than
    /// a block: a property key and a `:` follow it.
    #[verifier::spinoff_prover]
    fn object_ahead(&self) -> (r: bool)
        requires
            self.wf(),
        ensures
            r == grammar::object_ahead(self.tokens@, self.pos as int),
    {
        let key = self.kind_at(1);
        (key == TokenKind::Identifier || key == TokenKind::String || key == TokenKind::Number) && self.kind_at(2)
            == TokenKind::DoubleDot
    }

    /// FunctionExpression after `function`: an optional name, parameters and
    /// a body.
    #[verifier::spinoff_prover]
    fn parse_function_expression(&mut self) -> (r: Result<ast::Function, ParseError>)
        requires
            old(self).wf(),
        ensures
            final(self).follows(old(self)),
            located(r, old(self).tokens@, old(self).pos as int),
            function_outcome(r, final(self).pos) == grammar::function_expression(old(self).tokens@, old(self).pos as int, old(self).allow_in),
            r is Ok ==> final(self).pos > old(self).pos,
        decreases old(self).left(), 40nat,
    {
        proof {
            reveal(grammar::function_expression);
        }
        let mut name: Option<String> = None;
        if self.peek().kind == TokenKind::Identifier {
            name = Some(self.parse_identifier());
        }
        self.parse_function_rest(name)
    }

    /// Parameters in parentheses and a body in braces.
    #[verifier::spinoff_prover]
    fn parse_function_rest(&mut self, name: Option<String>) -> (r: Result<ast::Function, ParseError>)
        requires
            old(self).wf(),
        ensures
            final(self).follows(old(self)),
            located(r, old(self).tokens@, old(self).pos as int),
            function_outcome(r, final(self).pos) == grammar::function_rest(old(self).tokens@, old(self).pos as int, old(self).allow_in, name_view(name)),
            r is Ok ==> final(self).pos > old(self).pos,
            r is Ok ==> r->Ok_0.name == name,
        decreases old(self).left(), 39nat,
    {
        proof {
            reveal(grammar::function_rest);
        }
        if !self.check_kind(TokenKind::OpenParen) {
            return Err(self.error("expected '(' after function name"));
        }
        let params = self.parse_parameter_list()?;
        if !self.check_kind(TokenKind::CloseParen) {
            return Err(self.error("Not found ')' after '('"));
        }
        if !self.check_kind(TokenKind::OpenCurly) {
            return Err(self.error("expected '{' after ')'"));
        }
        let body = self.parse_function_body()?;
        Ok(ast::Function { name, params, body })
    }

    /// Parameter names separated by commas, up to (not with) `)`.
    #[verifier::spinoff_prover]
    #[verifier::loop_isolation(false)]
    fn parse_parameter_list(&mut self) -> (r: Result<Vec<String>, ParseError>)
        requires
            old(self).wf(),
        ensures
            final(self).follows(old(self)),
            located(r, old(self).tokens@, old(self).pos as int),
            names_outcome(r, final(self).pos) == grammar::parameter_list(old(self).tokens@, old(self).pos as int),
            r is Ok ==> final(self).next_kind() == TokenKind::CloseParen,
    {
        proof {
            reveal(grammar::parameters);
        }
        let mut names: Vec<String> = Vec::new();
        proof {
            assert(names_view(names@) =~= Seq::<Seq<char>>::empty());
        }
        if self.peek().kind == TokenKind::CloseParen {
            return Ok(names);
        }
        loop
            invariant
                self.follows(old(self)),
                grammar::parameter_list(old(self).tokens@, old(self).pos as int)
                    == grammar::parameters(self.tokens@, self.pos as int, names_view(names@)),
            decreases self.left(),
        {
            if self.peek().kind != TokenKind::Identifier {
                return Err(self.error_quoting("expected identifier in parameter list, found '", "'"));
            }
            let ghost before = names@;
            names.push(self.parse_identifier());
            proof {
                lemma_names_view_push(before, names@[before.len() as int]);
            }
            match self.peek().kind {
                TokenKind::Comma => {
                    self.advance();
                },
                TokenKind::CloseParen => {
                    break;
                },
                _ => {
                    return Err(self.error("expected ',' or ')' in parameter list"));
                },
            }
        }
        Ok(names)
    }

    /// A function body after `{`: statements up to and with `}`.
    #[verifier::spinoff_prover]
    fn parse_function_body(&mut self) -> (r: Result<Vec<ast::Stmt>, ParseError>)
        requires
            old(self).wf(),
        ensures
            final(self).follows(old(self)),
            located(r, old(self).tokens@, old(self).pos as int),
            stmts_outcome(r, final(self).pos) == grammar::function_body(old(self).tokens@, old(self).pos as int, old(self).allow_in),
            r is Ok ==> final(self).pos > old(self).pos,
        decreases old(self).left(), 44nat,
    {
        proof {
            reveal(grammar::function_body);
        }
        let body = self.parse_statement_list()?;
        if !self.check_kind(TokenKind::CloseCurly) {
            return Err(self.error("expected '}' in function body"));
        }
        Ok(body)
    }

    /// FunctionDeclaration: `function`, a name, parameters and a body.
    #[verifier::spinoff_prover]
    fn parse_function_declaration(&mut self) -> (r: Result<ast::Function, ParseError>)
        requires
            old(self).wf(),
        ensures
            final(self).follows(old(self)),
            located(r, old(self).tokens@, old(self).pos as int),
            function_outcome(r, final(self).pos) == grammar::function_declaration(old(self).tokens@, old(self).pos as int, old(self).allow_in),
            r is Ok ==> final(self).pos > old(self).pos,
            r is Ok ==> r->Ok_0.name is Some,
        decreases old(self).left(), 41nat,
    {
        proof {
            reveal(grammar::function_declaration);
        }
        if !self.check_kind(TokenKind::Function) {
            return Err(self.error("expected 'function' keyword"));
        }
        if self.peek().kind != TokenKind::Identifier {
            return Err(self.error("expected function name"));
        }
        let name = self.parse_identifier();
        self.parse_function_rest(Some(name))
    }

    /// Statement: the kind of statement is decided by its first token (and,
    /// after `{` or `function`, by those that follow); anything else is an
    /// expression statement.
    #[verifier::spinoff_prover]
    fn parse_statement(&mut self) -> (r: Result<ast::Stmt, ParseError>)
        requires
            old(self).wf(),
        ensures
            final(self).follows(old(self)),
            located(r, old(self).tokens@, old(self).pos as int),
            stmt_outcome(r, final(self).pos) == grammar::statement(old(self).tokens@, old(self).pos as int, old(self).allow_in),
            r is Ok ==> final(self).pos > old(self).pos,
        decreases old(self).left(), 42nat,
    {
        proof {
            reveal(grammar::statement);
        }
        let kind = self.peek().kind;
        match kind {
            TokenKind::Function => {
                if self.kind_at(1) == TokenKind::Identifier {
                    return Ok(ast::Stmt::Function(self.parse_function_declaration()?));
                }
            },
            TokenKind::OpenCurly => {
                if !self.object_ahead() {
                    return self.parse_block();
                }
            },
            TokenKind::SemiColon => {
                self.advance();
                return Ok(ast::Stmt::Empty);
            },
            TokenKind::Var => {
                return self.parse_variable_statement();
            },
            TokenKind::If => {
                return self.parse_if_statement();
            },
            TokenKind::While | TokenKind::For => {
                return self.parse_iteration_statement();
            },
            TokenKind::Continue => {
                return self.parse_continue_statement();
            },
            TokenKind::Break => {
                return self.parse_break_statement();
            },
            TokenKind::Return => {
                return self.parse_return_statement();
            },
            TokenKind::With => {
                return self.parse_with_statement();
            },
            _ => {},
        }
        let expr = self.parse_expression()?;
        self.consume_semicolon_or_insert()?;
        Ok(ast::Stmt::Expr(expr))
    }

    /// Block: statements in braces.
    #[verifier::spinoff_prover]
    fn parse_block(&mut self) -> (r: Result<ast::Stmt, ParseError>)
        requires
            old(self).wf(),
        ensures
            final(self).follows(old(self)),
            located(r, old(self).tokens@, old(self).pos as int),
            stmt_outcome(r, final(self).pos) == grammar::block(old(self).tokens@, old(self).pos as int, old(self).allow_in),
            r is Ok ==> final(self).pos > old(self).pos,
            r is Ok ==> r->Ok_0 is Block,
        decreases old(self).left(), 41nat,
    {
        proof {
            reveal(grammar::block);
        }
        if !self.check_kind(TokenKind::OpenCurly) {
            return Err(self.error("expected '{'"));
        }
        let stmts = self.parse_statement_list()?;
        if !self.check_kind(TokenKind::CloseCurly) {
            return Err(self.error("expected '}'"));
        }
        Ok(ast::Stmt::Block(stmts))
    }

    /// Statements up to (not with) `}` or the end of the input.
    #[verifier::spinoff_prover]
    #[verifier::loop_isolation(false)]
    fn parse_statement_list(&mut self) -> (r: Result<Vec<ast::Stmt>, ParseError>)
        requires
            old(self).wf(),
        ensures
            final(self).follows(old(self)),
            located(r, old(self).tokens@, old(self).pos as int),
            stmts_outcome(r, final(self).pos) == grammar::statements(old(self).tokens@, old(self).pos as int, old(self).allow_in, Seq::empty()),
            r is Ok ==> final(self).next_kind() == TokenKind::CloseCurly || final(self).next_kind() == TokenKind::EOF,
        decreases old(self).left(), 43nat,
    {
        proof {
            reveal(grammar::statements);
        }
        let mut stmts: Vec<ast::Stmt> = Vec::new();
        while self.peek().kind != TokenKind::CloseCurly && self.peek().kind != TokenKind::EOF
            invariant
                self.follows(old(self)),
                grammar::statements(old(self).tokens@, old(self).pos as int, old(self).allow_in, Seq::empty())
                    == grammar::statements(self.tokens@, self.pos as int, self.allow_in, stmts_view(stmts@)),
            decreases self.left(),
        {
            let s = self.parse_statement()?;
            let ghost before = stmts@;
            stmts.push(s);
            proof {
                lemma_stmts_view_push(before, stmts@[before.len() as int]);
            }
        }
        Ok(stmts)
    }

    /// VariableStatement: `var`, declarations, and the end of the statement.
    #[verifier::spinoff_prover]
    fn parse_variable_statement(&mut self) -> (r: Result<ast::Stmt, ParseError>)
        requires
            old(self).wf(),
        ensures
            final(self).follows(old(self)),
            located(r, old(self).tokens@, old(self).pos as int),
            stmt_outcome(r, final(self).pos) == grammar::variable_statement(old(self).tokens@, old(self).pos as int, old(self).allow_in),
            r is Ok ==> final(self).pos > old(self).pos,
            r is Ok ==> r->Ok_0 is Var,
        decreases old(self).left(), 41nat,
    {
        proof {
            reveal(grammar::variable_statement);
        }
        if !self.check_kind(TokenKind::Var) {
            return Err(self.error("'var' expected"));
        }
        let vars = self.parse_variable_declaration_list()?;
        self.consume_semicolon_or_insert()?;
        Ok(ast::Stmt::Var(vars))
    }

    /// Declarations `name` or `name = value`, separated by commas.
    #[verifier::spinoff_prover]
    #[verifier::loop_isolation(false)]
    fn parse_variable_declaration_list(&mut self) -> (r: Result<Vec<(String, Option<ast::Expr>)>, ParseError>)
        requires
            old(self).wf(),
        ensures
            final(self).follows(old(self)),
            located(r, old(self).tokens@, old(self).pos as int),
            decls_outcome(r, final(self).pos) == grammar::declarations(old(self).tokens@, old(self).pos as int, old(self).allow_in),
            r is Ok ==> final(self).pos > old(self).pos,
            r is Ok ==> r->Ok_0@.len() > 0 && r->Ok_0@[0].0@ == old(self).tokens@[old(self).pos as int].content@,
        decreases old(self).left(), 34nat,
    {
        proof {
            reveal(grammar::declarations);
            reveal(grammar::declarations_rest);
        }
        let mut vars: Vec<(String, Option<ast::Expr>)> = Vec::new();
        if self.peek().kind != TokenKind::Identifier {
            return Err(self.error("expected identifier in variable declaration"));
        }
        loop
            invariant
                self.follows(old(self)),
                self.next_kind() == TokenKind::Identifier,
                vars@.len() > 0 ==> self.pos > old(self).pos && vars@[0].0@ == old(self).tokens@[old(self).pos as int].content@,
                vars@.len() == 0 ==> self.pos == old(self).pos,
                grammar::declarations(old(self).tokens@, old(self).pos as int, old(self).allow_in)
                    == grammar::declarations_rest(self.tokens@, self.pos as int, self.allow_in, decls_view(vars@)),
            decreases self.left(),
        {
            let name = self.parse_identifier();
            let init = if self.check_kind(TokenKind::Equal) {
                Some(self.parse_assignment_expression()?)
            } else {
                None
            };
            let ghost before = vars@;
            vars.push((name, init));
            proof {
                lemma_decls_view_push(before, vars@[before.len() as int]);
            }
            if !self.check_kind(TokenKind::Comma) {
                break;
            }
            if self.peek().kind != TokenKind::Identifier {
                return Err(self.error("expected identifier after ',' in variable declaration"));
            }
        }
        Ok(vars)
    }

    /// IfStatement: `if (cond) stmt`, with an optional `else stmt`.
    #[verifier::spinoff_prover]
    fn parse_if_statement(&mut self) -> (r: Result<ast::Stmt, ParseError>)
        requires
            old(self).wf(),
        ensures
            final(self).follows(old(self)),
            located(r, old(self).tokens@, old(self).pos as int),
            stmt_outcome(r, final(self).pos) == grammar::if_statement(old(self).tokens@, old(self).pos as int, old(self).allow_in),
            r is Ok ==> final(self).pos > old(self).pos,
            r is Ok ==> r->Ok_0 is If,
        decreases old(self).left(), 41nat,
    {
        proof {
            reveal(grammar::if_statement);
        }
        if !self.check_kind(TokenKind::If) {
            return Err(self.error("'if' keyword is missing"));
        }
        if !self.check_kind(TokenKind::OpenParen) {
            return Err(self.error("Expected '(' after the 'if' keyword"));
        }
        let cond = self.parse_expression()?;
        if !self.check_kind(TokenKind::CloseParen) {
            return Err(self.error("Parenthese not closed"));
        }
        let then_ = self.parse_statement()?;
        let else_ = if self.check_kind(TokenKind::Else) {
            Some(Box::new(self.parse_statement()?))
        } else {
            None
        };
        Ok(ast::Stmt::If { cond, then_: Box::new(then_), else_ })
    }

    /// Parses an expression with the `in` operator not allowed.
    #[verifier::spinoff_prover]
    fn parse_expression_no_in(&mut self) -> (r: Result<ast::Expr, ParseError>)
        requires
            old(self).wf(),
        ensures
            final(self).follows(old(self)),
            located(r, old(self).tokens@, old(self).pos as int),
            expr_outcome(r, final(self).pos) == grammar::expression(old(self).tokens@, old(self).pos as int, false),
            r is Ok ==> final(self).pos > old(self).pos,
        decreases old(self).left(), 33nat,
    {
        let prev_allow_in = self.allow_in;
        self.allow_in = false;
        let r = self.parse_expression();
        self.allow_in = prev_allow_in;
        r
    }

    /// Parses declarations with the `in` operator not allowed.
    #[verifier::spinoff_prover]
    fn parse_declarations_no_in(&mut self) -> (r: Result<Vec<(String, Option<ast::Expr>)>, ParseError>)
        requires
            old(self).wf(),
        ensures
            final(self).follows(old(self)),
            located(r, old(self).tokens@, old(self).pos as int),
            decls_outcome(r, final(self).pos) == grammar::declarations(old(self).tokens@, old(self).pos as int, false),
            r is Ok ==> final(self).pos > old(self).pos,
            r is Ok ==> r->Ok_0@.len() > 0 && r->Ok_0@[0].0@ == old(self).tokens@[old(self).pos as int].content@,
        decreases old(self).left(), 35nat,
    {
        let prev_allow_in = self.allow_in;
        self.allow_in = false;
        let r = self.parse_variable_declaration_list();
        self.allow_in = prev_allow_in;
        r
    }

    /// The rest of a `for-in` head after `in`, and the body.
    #[verifier::spinoff_prover]
    fn parse_for_in_rest(&mut self, var: String) -> (r: Result<ast::Stmt, ParseError>)
        requires
            old(self).wf(),
        ensures
            final(self).follows(old(self)),
            located(r, old(self).tokens@, old(self).pos as int),
            stmt_outcome(r, final(self).pos) == grammar::for_in_rest(old(self).tokens@, old(self).pos as int, old(self).allow_in, var@),
            r is Ok ==> final(self).pos > old(self).pos,
            r is Ok ==> (r->Ok_0 matches ast::Stmt::ForIn { var: v, .. } && v == var),
        decreases old(self).left(), 40nat,
    {
        proof {
            reveal(grammar::for_in_rest);
        }
        let expr = self.parse_expression()?;
        if !self.check_kind(TokenKind::CloseParen) {
            return Err(self.error("Expected ')' after '('"));
        }
        let body = self.parse_statement()?;
        Ok(ast::Stmt::ForIn { var, expr, body: Box::new(body) })
    }

    /// The rest of a C-style `for` head after the first `;`, and the body.
    #[verifier::spinoff_prover]
    fn parse_for_rest(&mut self, init: Option<ast::ForInit>) -> (r: Result<ast::Stmt, ParseError>)
        requires
            old(self).wf(),
        ensures
            final(self).follows(old(self)),
            located(r, old(self).tokens@, old(self).pos as int),
            stmt_outcome(r, final(self).pos) == grammar::for_rest(old(self).tokens@, old(self).pos as int, old(self).allow_in, for_init_view(init)),
            r is Ok ==> final(self).pos > old(self).pos,
            r is Ok ==> r->Ok_0 is For,
        decreases old(self).left(), 40nat,
    {
        proof {
            reveal(grammar::for_rest);
        }
        let cond = if self.check_kind(TokenKind::SemiColon) {
            None
        } else {
            let expr = self.parse_expression()?;
            if !self.check_kind(TokenKind::SemiColon) {
                return Err(self.error("Expected ';' after condition in 'for'"));
            }
            Some(expr)
        };
        let update = if self.check_kind(TokenKind::CloseParen) {
            None
        } else {
            let expr = self.parse_expression()?;
            if !self.check_kind(TokenKind::CloseParen) {
                return Err(self.error("Expected ')' after update in 'for'"));
            }
            Some(expr)
        };
        let body = self.parse_statement()?;
        Ok(ast::Stmt::For { init, cond, update, body: Box::new(body) })
    }

    /// IterationStatement: `while (cond) stmt`, or one of the three forms of
    /// `for`. After `for (`, a declaration list or an expression, read with
    /// `in` not allowed, is followed either by `in` (then it must be a single
    /// name, and this is a `for-in` loop) or by `;` (a C-style loop).
    #[verifier::spinoff_prover]
    #[verifier::rlimit(100)]
    fn parse_iteration_statement(&mut self) -> (r: Result<ast::Stmt, ParseError>)
        requires
            old(self).wf(),
        ensures
            final(self).follows(old(self)),
            located(r, old(self).tokens@, old(self).pos as int),
            stmt_outcome(r, final(self).pos) == grammar::iteration(old(self).tokens@, old(self).pos as int, old(self).allow_in),
            r is Ok ==> final(self).pos > old(self).pos,
        decreases old(self).left(), 41nat,
    {
        proof {
            reveal(grammar::iteration);
        }
        if self.check_kind(TokenKind::While) {
            if !self.check_kind(TokenKind::OpenParen) {
                return Err(self.error("Expected '(' after the 'while' keyword"));
            }
            let cond = self.parse_expression()?;
            if !self.check_kind(TokenKind::CloseParen) {
                return Err(self.error("Expected ')' after '('"));
            }
            let body = self.parse_statement()?;
            return Ok(ast::Stmt::While { cond, body: Box::new(body) });
        }
        if !self.check_kind(TokenKind::For) {
            return Err(self.error("No more options for iteration statement"));
        }
        if !self.check_kind(TokenKind::OpenParen) {
            return Err(self.error("Expected '(' after the 'for' keyword"));
        }
        self.parse_for_head()
    }

    /// A `for` head after `for (var`: declarations, then `in` and a single
    /// name's loop, or `;` and a C-style loop.
    #[verifier::spinoff_prover]
    fn parse_for_var(&mut self) -> (r: Result<ast::Stmt, ParseError>)
        requires
            old(self).wf(),
        ensures
            final(self).follows(old(self)),
            located(r, old(self).tokens@, old(self).pos as int),
            stmt_outcome(r, final(self).pos) == grammar::for_var(old(self).tokens@, old(self).pos as int, old(self).allow_in),
            r is Ok ==> final(self).pos > old(self).pos,
        decreases old(self).left(), 39nat,
    {
        proof {
            reveal(grammar::for_var);
        }
        let mut vars = self.parse_declarations_no_in()?;
        proof {
            lemma_decls_view_names(vars@);
        }
        if self.check_kind(TokenKind::In) {
            if vars.len() != 1 {
                return Err(self.error("expected a single variable in 'for...in'"));
            }
            let (name, _) = vars.remove(0);
            return self.parse_for_in_rest(name);
        }
        if !self.check_kind(TokenKind::SemiColon) {
            return Err(self.error("Expected ';' after variable declaration list"));
        }
        return self.parse_for_rest(Some(ast::ForInit::Var(vars)));
    }

    /// A `for` head after `for (`: a declaration list or an expression, read
    /// with `in` not allowed, followed either by `in` (then it must be a
    /// single name, and this is a `for-in` loop) or by `;` (a C-style loop);
    /// and the body.
    #[verifier::spinoff_prover]
    #[verifier::rlimit(60)]
    fn parse_for_head(&mut self) -> (r: Result<ast::Stmt, ParseError>)
        requires
            old(self).wf(),
        ensures
            final(self).follows(old(self)),
            located(r, old(self).tokens@, old(self).pos as int),
            stmt_outcome(r, final(self).pos) == grammar::for_head(old(self).tokens@, old(self).pos as int, old(self).allow_in),
            r is Ok ==> final(self).pos > old(self).pos,
        decreases old(self).left(), 40nat,
    {
        proof {
            reveal(grammar::for_head);
        }
        if self.check_kind(TokenKind::Var) {
            return self.parse_for_var();
        }
        if self.check_kind(TokenKind::SemiColon) {
            return self.parse_for_rest(None);
        }
        if self.kind_at(0) == TokenKind::Identifier && self.kind_at(1) == TokenKind::In {
            let name = self.parse_identifier();
            self.advance();
            return self.parse_for_in_rest(name);
        }
        let first = self.parse_expression_no_in()?;
        if self.peek().kind == TokenKind::In {
            return match first {
                ast::Expr::Identifier(name) => {
                    self.advance();
                    self.parse_for_in_rest(name)
                },
                _ => Err(self.error("expected identifier before 'in' in 'for...in'")),
            };
        }
        if !self.check_kind(TokenKind::SemiColon) {
            return Err(self.error("Expected ';' after initializer in 'for'"));
        }
        self.parse_for_rest(Some(ast::ForInit::Expr(first)))
    }

    /// ContinueStatement.
    #[verifier::spinoff_prover]
    fn parse_continue_statement(&mut self) -> (r: Result<ast::Stmt, ParseError>)
        requires
            old(self).wf(),
        ensures
            final(self).follows(old(self)),
            located(r, old(self).tokens@, old(self).pos as int),
            old(self).next_kind() == TokenKind::Continue ==> stmt_outcome(r, final(self).pos) == grammar::statement(old(self).tokens@, old(self).pos as int, old(self).allow_in),
            r is Ok ==> final(self).pos > old(self).pos,
            r is Ok ==> r->Ok_0 is Continue,
    {
        proof {
            reveal(grammar::statement);
        }
        if !self.check_kind(TokenKind::Continue) {
            return Err(self.error_quoting("Expected 'continue' but found '", "'"));
        }
        self.consume_semicolon_or_insert()?;
        Ok(ast::Stmt::Continue)
    }

    /// BreakStatement.
    #[verifier::spinoff_prover]
    fn parse_break_statement(&mut self) -> (r: Result<ast::Stmt, ParseError>)
        requires
            old(self).wf(),
        ensures
            final(self).follows(old(self)),
            located(r, old(self).tokens@, old(self).pos as int),
            old(self).next_kind() == TokenKind::Break ==> stmt_outcome(r, final(self).pos) == grammar::statement(old(self).tokens@, old(self).pos as int, old(self).allow_in),
            r is Ok ==> final(self).pos > old(self).pos,
            r is Ok ==> r->Ok_0 is Break,
            old(self).next_kind() == TokenKind::Break ==> (r is Ok <==> (
            old(self).tokens@[old(self).pos + 1].kind == TokenKind::SemiColon || may_end_statement(
                old(self).tokens@[old(self).pos + 1],
            ))),
    {
        proof {
            reveal(grammar::statement);
        }
        if !self.check_kind(TokenKind::Break) {
            return Err(self.error_quoting("Expected 'break' but found '", "'"));
        }
        self.consume_semicolon_or_insert()?;
        Ok(ast::Stmt::Break)
    }

    /// ReturnStatement: `return` with no value where the statement may end
    /// right after it (a line terminator coming first ends it), else with an
    /// expression.
    #[verifier::spinoff_prover]
    fn parse_return_statement(&mut self) -> (r: Result<ast::Stmt, ParseError>)
        requires
            old(self).wf(),
        ensures
            final(self).follows(old(self)),
            located(r, old(self).tokens@, old(self).pos as int),
            stmt_outcome(r, final(self).pos) == grammar::return_statement(old(self).tokens@, old(self).pos as int, old(self).allow_in),
            r is Ok ==> final(self).pos > old(self).pos,
            r is Ok ==> r->Ok_0 is Return,
            old(self).next_kind() == TokenKind::Return ==> {
                let after = old(self).tokens@[old(self).pos + 1];
                &&& (after.kind == TokenKind::SemiColon || may_end_statement(after)) ==> (r matches Ok(
                    ast::Stmt::Return(None),
                ))
                &&& !(after.kind == TokenKind::SemiColon || may_end_statement(after)) && r is Ok ==> (r matches Ok(
                    ast::Stmt::Return(Some(_)),
                ))
            },
        decreases old(self).left(), 41nat,
    {
        proof {
            reveal(grammar::return_statement);
        }
        if !self.check_kind(TokenKind::Return) {
            return Err(self.error_quoting("Expected 'return' but found '", "'"));
        }
        let t = self.peek();
        if t.kind == TokenKind::SemiColon || t.kind == TokenKind::CloseCurly || t.kind == TokenKind::EOF
            || t.line_terminator_before {
            self.consume_semicolon_or_insert()?;
            return Ok(ast::Stmt::Return(None));
        }
        let expr = self.parse_expression()?;
        self.consume_semicolon_or_insert()?;
        Ok(ast::Stmt::Return(Some(expr)))
    }

    /// WithStatement: `with (expr) stmt`.
    #[verifier::spinoff_prover]
    fn parse_with_statement(&mut self) -> (r: Result<ast::Stmt, ParseError>)
        requires
            old(self).wf(),
        ensures
            final(self).follows(old(self)),
            located(r, old(self).tokens@, old(self).pos as int),
            stmt_outcome(r, final(self).pos) == grammar::with_statement(old(self).tokens@, old(self).pos as int, old(self).allow_in),
            r is Ok ==> final(self).pos > old(self).pos,
            r is Ok ==> r->Ok_0 is With,
        decreases old(self).left(), 41nat,
    {
        proof {
            reveal(grammar::with_statement);
        }
        if !self.check_kind(TokenKind::With) {
            return Err(self.error("expected 'with'"));
        }
        if !self.check_kind(TokenKind::OpenParen) {
            return Err(self.error_quoting("Expected '(' but found '", "'"));
        }
        let expr = self.parse_expression()?;
        if !self.check_kind(TokenKind::CloseParen) {
            return Err(self.error_quoting("Expected ')' but found '", "'"));
        }
        let body = self.parse_statement()?;
        Ok(ast::Stmt::With { expr, body: Box::new(body) })
    }

    /// Ends a statement: reads a `;`, or accepts its absence where the
    /// statement may end without one.
    #[verifier::spinoff_prover]
    fn consume_semicolon_or_insert(&mut self) -> (r: Result<(), ParseError>)
        requires
            old(self).wf(),
        ensures
            final(self).follows(old(self)),
            r is Err ==> r->Err_0.message@ == "expected ';'"@,
            located(r, old(self).tokens@, old(self).pos as int),
            unit_outcome(r, final(self).pos) == grammar::statement_end(old(self).tokens@, old(self).pos as int),
            ({
                let t = old(self).tokens@[old(self).pos as int];
                &&& t.kind == TokenKind::SemiColon ==> r is Ok && final(self).pos == old(self).pos + 1
                &&& t.kind != TokenKind::SemiColon && may_end_statement(t) ==> r is Ok && final(self).pos == old(self).pos
                &&& t.kind != TokenKind::SemiColon && !may_end_statement(t) ==> r is Err && reports(
                    r->Err_0,
                    old(self).tokens@,
                    old(self).pos as int,
                )
            }),
    {
        if self.check_kind(TokenKind::SemiColon) {
            return Ok(());
        }
        let t = self.peek();
        if t.kind == TokenKind::CloseCurly || t.kind == TokenKind::EOF || t.line_terminator_before {
            return Ok(());
        }
        Err(self.error("expected ';'"))
    }

    /// Parses `tokens`, which end with `EOF`, into a program: statements up
    /// to the end of the input. The first error ends the parse.
    #[verifier::spinoff_prover]
    #[verifier::loop_isolation(false)]
    pub fn parse(&mut self, tokens: Vec<Token>) -> (r: Result<ast::Program, ParseError>)
        requires
            tokens@.len() > 0,
            tokens@.last().kind == TokenKind::EOF,
        ensures
            final(self).wf(),
            final(self).tokens@ == tokens@,
            final(self).allow_in,
            r is Ok ==> final(self).next_kind() == TokenKind::EOF,
            tokens@.len() == 1 ==> (r matches Ok(p) && p.body@.len() == 0),
            program_outcome(r) == grammar::program(tokens@, 0, Seq::empty()),
            located(r, tokens@, 0),
            r is Ok ==> r->Ok_0.body@.len() <= tokens@.len() - 1,
    {
        proof {
            reveal(grammar::program);
        }
        self.tokens = tokens;
        self.pos = 0;
        self.allow_in = true;
        let mut body: Vec<ast::Stmt> = Vec::new();
        while self.peek().kind != TokenKind::EOF
            invariant
                self.wf(),
                self.tokens@ == tokens@,
                self.allow_in,
                body@.len() <= self.pos,
                grammar::program(tokens@, 0, Seq::empty()) == grammar::program(self.tokens@, self.pos as int, stmts_view(body@)),
            decreases self.left(),
        {
            let s = self.parse_statement()?;
            let ghost before = body@;
            body.push(s);
            proof {
                lemma_stmts_view_push(before, body@[before.len() as int]);
            }
        }
        Ok(ast::Program { body })
    }
}

/// Whether `t` is a decimal literal.
fn decimal_literal(t: &str) -> (r: bool)
    ensures
        r == is_decimal_literal(t@),
{
    let ghost s = t@;
    let n = t.unicode_len();
    let mut m: usize = 0;
    while digit_at(t, m, n)
        invariant
            n == s.len(),
            s == t@,
            m <= n,
            digits_end(s, 0) == digits_end(s, m as int),
        decreases n - m,
    {
        m = m + 1;
    }
    let mut f: usize = m;
    if m < n && t.get_char(m) == '.' {
        f = m + 1;
        while digit_at(t, f, n)
            invariant
                n == s.len(),
                s == t@,
                m < f <= n,
                digits_end(s, m + 1) == digits_end(s, f as int),
            decreases n - f,
        {
            f = f + 1;
        }
    }
    let has_digits = m > 0 || f > m + 1;
    if f < n && (t.get_char(f) == 'e' || t.get_char(f) == 'E') {
        let mut k = f + 1;
        if k < n && (t.get_char(k) == '+' || t.get_char(k) == '-') {
            k = k + 1;
        }
        let mut d = k;
        while digit_at(t, d, n)
            invariant
                n == s.len(),
                s == t@,
                k <= d <= n,
                digits_end(s, k as int) == digits_end(s, d as int),
            decreases n - d,
        {
            d = d + 1;
        }
        has_digits && d > k && d == n
    } else {
        has_digits && f == n
    }
}

/// Whether index `i` of `t`, of length `n`, holds an ASCII digit.
fn digit_at(t: &str, i: usize, n: usize) -> (r: bool)
    requires
        n == t@.len(),
    ensures
        r == (i < n && is_ascii_digit(t@[i as int])),
{
    i < n && is_digit(t.get_char(i))
}

fn is_digit(c: char) -> (r: bool)
    ensures
        r == is_ascii_digit(c),
{
    '0' <= c && c <= '9'
}

/// Parsing is a function of the tokens: two results of parsing the same
/// tokens are the same program, or fail at the same token.
pub proof fn lemma_parsing_is_deterministic(
    tokens: Seq<Token>,
    a: Result<ast::Program, ParseError>,
    b: Result<ast::Program, ParseError>,
)
    requires
        program_outcome(a) == grammar::program(tokens, 0, Seq::empty()),
        program_outcome(b) == grammar::program(tokens, 0, Seq::empty()),
    ensures
        a is Ok <==> b is Ok,
        a is Ok ==> stmts_view(a->Ok_0.body@) == stmts_view(b->Ok_0.body@),
        a is Err ==> a->Err_0.token == b->Err_0.token,
{
}

} // verus!
