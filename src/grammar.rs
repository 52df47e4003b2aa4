//! The grammar, as spec functions over the tokens: each says what the
//! parsing function of the same name makes of the tokens from index `i` on.
//! A result is `Ok((tree, next))`, with the index of the first token not
//! read, or `Err(k)`, with the index of the token at which the error was
//! found. `ain` says whether the `in` operator is allowed.
use vstd::prelude::*;

use crate::ast::{AssignOp, BinOp, UnaryOp, UpdateOp};
use crate::lexer::{Token, TokenKind};
use crate::parser::{assign_op_of, binary_op_of, is_decimal_literal, prefix_op_of, unquoted};
use crate::syntax::{SExpr, SForInit, SFunction, SKey, SLiteral, SStmt};

verus! {

pub type Parsed<T> = Result<(T, int), int>;

/// The kind of token `i`, `EOF` outside the tokens.
pub open spec fn kind(ts: Seq<Token>, i: int) -> TokenKind {
    if 0 <= i < ts.len() {
        ts[i].kind
    } else {
        TokenKind::EOF
    }
}

/// The text of token `i`.
pub open spec fn text(ts: Seq<Token>, i: int) -> Seq<char> {
    ts[i].content@
}

/// Reading went on from `i` to `j`, within the tokens.
pub open spec fn onward(ts: Seq<Token>, i: int, j: int) -> bool {
    i < j <= ts.len()
}

/// What a prefix operator makes of its operand.
pub open spec fn prefix_tree(op: UnaryOp, e: SExpr) -> SExpr {
    match op {
        UnaryOp::PreInc => SExpr::Update(UpdateOp::Inc, true, Box::new(e)),
        UnaryOp::PreDec => SExpr::Update(UpdateOp::Dec, true, Box::new(e)),
        _ => SExpr::Unary(op, Box::new(e)),
    }
}

#[verifier::opaque]
pub open spec fn expression(ts: Seq<Token>, i: int, ain: bool) -> Parsed<SExpr>
    decreases ts.len() - i, 32nat,
{
    match assignment(ts, i, ain) {
        Err(k) => Err(k),
        Ok((e, j)) => if !onward(ts, i, j) {
            Err(j)
        } else if kind(ts, j) != TokenKind::Comma {
            Ok((e, j))
        } else {
            sequence(ts, j, ain, seq![e])
        },
    }
}

/// The rest of a comma expression from the comma at `j`, after `acc`.
#[verifier::opaque]
pub open spec fn sequence(ts: Seq<Token>, j: int, ain: bool, acc: Seq<SExpr>) -> Parsed<SExpr>
    decreases ts.len() - j, 32nat,
{
    if !(0 <= j < ts.len()) {
        Err(j)
    } else {
        match assignment(ts, j + 1, ain) {
            Err(k) => Err(k),
            Ok((e, k)) => if !onward(ts, j, k) {
                Err(k)
            } else if kind(ts, k) == TokenKind::Comma {
                sequence(ts, k, ain, acc.push(e))
            } else {
                Ok((SExpr::Sequence(acc.push(e)), k))
            },
        }
    }
}

#[verifier::opaque]
pub open spec fn assignment(ts: Seq<Token>, i: int, ain: bool) -> Parsed<SExpr>
    decreases ts.len() - i, 31nat,
{
    match conditional(ts, i, ain) {
        Err(k) => Err(k),
        Ok((l, j)) => if !onward(ts, i, j) {
            Err(j)
        } else {
            match assign_op_of(kind(ts, j)) {
                None => Ok((l, j)),
                Some(op) => match assignment(ts, j + 1, ain) {
                    Err(k) => Err(k),
                    Ok((r, k)) => Ok((SExpr::Assign(Box::new(l), op, Box::new(r)), k)),
                },
            }
        },
    }
}

#[verifier::opaque]
pub open spec fn conditional(ts: Seq<Token>, i: int, ain: bool) -> Parsed<SExpr>
    decreases ts.len() - i, 30nat,
{
    match binary(ts, i, ain, 9) {
        Err(k) => Err(k),
        Ok((c, j)) => if !onward(ts, i, j) {
            Err(j)
        } else if kind(ts, j) != TokenKind::Question {
            Ok((c, j))
        } else {
            match assignment(ts, j + 1, ain) {
                Err(k) => Err(k),
                Ok((t, k)) => if !onward(ts, j, k) {
                    Err(k)
                } else if kind(ts, k) != TokenKind::DoubleDot {
                    Err(k)
                } else {
                    match assignment(ts, k + 1, ain) {
                        Err(m) => Err(m),
                        Ok((e, m)) => Ok((SExpr::Ternary(Box::new(c), Box::new(t), Box::new(e)), m)),
                    }
                },
            }
        },
    }
}

/// An operand of the binary operators of `level`.
#[verifier::opaque]
pub open spec fn operand(ts: Seq<Token>, i: int, ain: bool, level: nat) -> Parsed<SExpr>
    decreases ts.len() - i, 5 + 2 * level,
{
    if level == 0 {
        unary(ts, i, ain)
    } else {
        binary(ts, i, ain, (level - 1) as nat)
    }
}

#[verifier::opaque]
pub open spec fn binary(ts: Seq<Token>, i: int, ain: bool, level: nat) -> Parsed<SExpr>
    decreases ts.len() - i, 6 + 2 * level,
{
    match operand(ts, i, ain, level) {
        Err(k) => Err(k),
        Ok((e, j)) => if !onward(ts, i, j) {
            Err(j)
        } else {
            binary_rest(ts, j, ain, level, e)
        },
    }
}

/// The operators of `level` and their right operands from `j`, after the
/// left operand `acc`.
#[verifier::opaque]
pub open spec fn binary_rest(ts: Seq<Token>, j: int, ain: bool, level: nat, acc: SExpr) -> Parsed<SExpr>
    decreases ts.len() - j, 6 + 2 * level,
{
    if level > 9 || !(0 <= j < ts.len()) {
        Err(j)
    } else {
        match binary_op_of(kind(ts, j), level as u8, ain) {
            None => Ok((acc, j)),
            Some(op) => match operand(ts, j + 1, ain, level) {
                Err(k) => Err(k),
                Ok((r, k)) => if !onward(ts, j, k) {
                    Err(k)
                } else {
                    binary_rest(ts, k, ain, level, SExpr::Binary(op, Box::new(acc), Box::new(r)))
                },
            },
        }
    }
}

#[verifier::opaque]
pub open spec fn unary(ts: Seq<Token>, i: int, ain: bool) -> Parsed<SExpr>
    decreases ts.len() - i, 4nat,
{
    match prefix_op_of(kind(ts, i)) {
        Some(op) => match unary(ts, i + 1, ain) {
            Err(k) => Err(k),
            Ok((e, j)) => Ok((prefix_tree(op, e), j)),
        },
        None => postfix(ts, i, ain),
    }
}

#[verifier::opaque]
pub open spec fn postfix(ts: Seq<Token>, i: int, ain: bool) -> Parsed<SExpr>
    decreases ts.len() - i, 3nat,
{
    match member(ts, i, ain, true) {
        Err(k) => Err(k),
        Ok((e, j)) => if !(0 <= j < ts.len()) || ts[j].line_terminator_before {
            Ok((e, j))
        } else if kind(ts, j) == TokenKind::DoublePlus {
            Ok((SExpr::Update(UpdateOp::Inc, false, Box::new(e)), j + 1))
        } else if kind(ts, j) == TokenKind::DoubleMinus {
            Ok((SExpr::Update(UpdateOp::Dec, false, Box::new(e)), j + 1))
        } else {
            Ok((e, j))
        },
    }
}

#[verifier::opaque]
pub open spec fn arguments(ts: Seq<Token>, i: int, ain: bool) -> Parsed<SExpr>
    decreases ts.len() - i, 34nat,
{
    if kind(ts, i) == TokenKind::CloseParen {
        Ok((SExpr::Sequence(Seq::empty()), i + 1))
    } else {
        arguments_rest(ts, i, ain, Seq::empty())
    }
}

#[verifier::opaque]
pub open spec fn arguments_rest(ts: Seq<Token>, i: int, ain: bool, acc: Seq<SExpr>) -> Parsed<SExpr>
    decreases ts.len() - i, 33nat,
{
    match assignment(ts, i, ain) {
        Err(k) => Err(k),
        Ok((e, j)) => if !onward(ts, i, j) {
            Err(j)
        } else if kind(ts, j) == TokenKind::Comma {
            arguments_rest(ts, j + 1, ain, acc.push(e))
        } else if kind(ts, j) == TokenKind::CloseParen {
            Ok((SExpr::Sequence(acc.push(e)), j + 1))
        } else {
            Err(j)
        },
    }
}

#[verifier::opaque]
pub open spec fn member(ts: Seq<Token>, i: int, ain: bool, calls: bool) -> Parsed<SExpr>
    decreases ts.len() - i, 2nat,
{
    match member_head(ts, i, ain) {
        Err(k) => Err(k),
        Ok((e, j)) => if !onward(ts, i, j) {
            Err(j)
        } else {
            member_rest(ts, j, ain, calls, e)
        },
    }
}

/// The start of a member expression: a function expression, a `new`
/// expression, or a primary expression.
#[verifier::opaque]
pub open spec fn member_head(ts: Seq<Token>, i: int, ain: bool) -> Parsed<SExpr>
    decreases ts.len() - i, 1nat,
{
    if kind(ts, i) == TokenKind::Function {
        match function_expression(ts, i + 1, ain) {
            Err(k) => Err(k),
            Ok((f, j)) => Ok((SExpr::Function(f), j)),
        }
    } else if kind(ts, i) == TokenKind::New {
        match member(ts, i + 1, ain, false) {
            Err(k) => Err(k),
            Ok((c, j)) => if !onward(ts, i, j) {
                Err(j)
            } else if kind(ts, j) == TokenKind::OpenParen {
                match arguments(ts, j + 1, ain) {
                    Err(k) => Err(k),
                    Ok((a, k)) => Ok((SExpr::New(Box::new(c), Box::new(a)), k)),
                }
            } else {
                Ok((SExpr::New(Box::new(c), Box::new(SExpr::Sequence(Seq::empty()))), j))
            },
        }
    } else {
        primary(ts, i, ain)
    }
}

/// The chain of `.name`, `[index]` and, where `calls`, `(arguments)` from
/// `j`, after `acc`.
#[verifier::opaque]
pub open spec fn member_rest(ts: Seq<Token>, j: int, ain: bool, calls: bool, acc: SExpr) -> Parsed<SExpr>
    decreases ts.len() - j, 2nat,
{
    if !(0 <= j < ts.len()) {
        Err(j)
    } else if kind(ts, j) == TokenKind::OpenParen && calls {
        match arguments(ts, j + 1, ain) {
            Err(k) => Err(k),
            Ok((a, k)) => if !onward(ts, j, k) {
                Err(k)
            } else {
                member_rest(ts, k, ain, calls, SExpr::Call(Box::new(acc), Box::new(a)))
            },
        }
    } else if kind(ts, j) == TokenKind::OpenBracket {
        match expression(ts, j + 1, ain) {
            Err(k) => Err(k),
            Ok((x, k)) => if !onward(ts, j, k) {
                Err(k)
            } else if kind(ts, k) != TokenKind::CloseBracket {
                Err(k)
            } else {
                member_rest(ts, k + 1, ain, calls, SExpr::Index(Box::new(acc), Box::new(x)))
            },
        }
    } else if kind(ts, j) == TokenKind::Dot {
        if kind(ts, j + 1) != TokenKind::Identifier {
            Err(j + 1)
        } else {
            member_rest(ts, j + 2, ain, calls, SExpr::Member(Box::new(acc), text(ts, j + 1)))
        }
    } else {
        Ok((acc, j))
    }
}

#[verifier::opaque]
pub open spec fn primary(ts: Seq<Token>, i: int, ain: bool) -> Parsed<SExpr>
    decreases ts.len() - i, 0nat,
{
    let k = kind(ts, i);
    if k == TokenKind::This {
        Ok((SExpr::This, i + 1))
    } else if k == TokenKind::Undefined {
        Ok((SExpr::Literal(SLiteral::Undefined), i + 1))
    } else if k == TokenKind::Identifier {
        Ok((SExpr::Identifier(text(ts, i)), i + 1))
    } else if k == TokenKind::String {
        Ok((SExpr::Literal(SLiteral::String(unquoted(text(ts, i)))), i + 1))
    } else if k == TokenKind::True {
        Ok((SExpr::Literal(SLiteral::Bool(true)), i + 1))
    } else if k == TokenKind::False {
        Ok((SExpr::Literal(SLiteral::Bool(false)), i + 1))
    } else if k == TokenKind::Null {
        Ok((SExpr::Literal(SLiteral::Null), i + 1))
    } else if k == TokenKind::Number {
        if is_decimal_literal(text(ts, i)) {
            Ok((SExpr::Literal(SLiteral::Number(text(ts, i))), i + 1))
        } else {
            Err(i)
        }
    } else if k == TokenKind::OpenBracket {
        array_rest(ts, i + 1, ain, Seq::empty())
    } else if k == TokenKind::OpenCurly {
        object_of(ts, i + 1, properties(ts, i + 1, ain, Seq::empty()))
    } else if k == TokenKind::OpenParen {
        match expression(ts, i + 1, ain) {
            Err(j) => Err(j),
            Ok((e, j)) => if kind(ts, j) != TokenKind::CloseParen {
                Err(j)
            } else {
                Ok((e, j + 1))
            },
        }
    } else {
        Err(i)
    }
}

/// The elements of an array literal from `i`, after `acc`, up to and with `]`.
#[verifier::opaque]
pub open spec fn array_rest(ts: Seq<Token>, i: int, ain: bool, acc: Seq<SExpr>) -> Parsed<SExpr>
    decreases ts.len() - i, 33nat,
{
    if !(0 <= i < ts.len()) {
        Err(i)
    } else if kind(ts, i) == TokenKind::CloseBracket {
        Ok((SExpr::Literal(SLiteral::Array(acc)), i + 1))
    } else if kind(ts, i) == TokenKind::Comma {
        array_rest(ts, i + 1, ain, acc.push(SExpr::Literal(SLiteral::Undefined)))
    } else {
        match assignment(ts, i, ain) {
            Err(k) => Err(k),
            Ok((e, j)) => if !onward(ts, i, j) {
                Err(j)
            } else if kind(ts, j) == TokenKind::Comma {
                if kind(ts, j + 1) == TokenKind::CloseBracket {
                    array_rest(ts, j + 1, ain, acc.push(e).push(SExpr::Literal(SLiteral::Undefined)))
                } else {
                    array_rest(ts, j + 1, ain, acc.push(e))
                }
            } else if kind(ts, j) == TokenKind::CloseBracket {
                Ok((SExpr::Literal(SLiteral::Array(acc.push(e))), j + 1))
            } else {
                Err(j)
            },
        }
    }
}

/// An object literal from `i` (after `{`), given `props`, what
/// `properties` reads from `i`.
pub open spec fn object_of(ts: Seq<Token>, i: int, props: Parsed<Seq<(SKey, SExpr)>>) -> Parsed<SExpr> {
    if kind(ts, i) == TokenKind::CloseCurly {
        Ok((SExpr::Literal(SLiteral::Object(Seq::empty())), i + 1))
    } else {
        match props {
            Err(k) => Err(k),
            Ok((ps, j)) => if kind(ts, j) != TokenKind::CloseCurly {
                Err(j)
            } else {
                Ok((SExpr::Literal(SLiteral::Object(ps)), j + 1))
            },
        }
    }
}

/// The property key at `i`.
pub open spec fn property_key(ts: Seq<Token>, i: int) -> Result<SKey, int> {
    let k = kind(ts, i);
    if k == TokenKind::String {
        Ok(SKey::String(unquoted(text(ts, i))))
    } else if k == TokenKind::Number {
        if is_decimal_literal(text(ts, i)) {
            Ok(SKey::Number(text(ts, i)))
        } else {
            Err(i)
        }
    } else if k == TokenKind::Identifier {
        Ok(SKey::Identifier(text(ts, i)))
    } else {
        Err(i)
    }
}

/// The properties `key: value` from `i`, after `acc`, separated by commas.
#[verifier::opaque]
pub open spec fn properties(ts: Seq<Token>, i: int, ain: bool, acc: Seq<(SKey, SExpr)>) -> Parsed<
    Seq<(SKey, SExpr)>,
>
    decreases ts.len() - i, 34nat,
{
    match property_key(ts, i) {
        Err(k) => Err(k),
        Ok(key) => if kind(ts, i + 1) != TokenKind::DoubleDot {
            Err(i + 1)
        } else {
            match assignment(ts, i + 2, ain) {
                Err(k) => Err(k),
                Ok((v, j)) => if !onward(ts, i, j) {
                    Err(j)
                } else if kind(ts, j) == TokenKind::Comma {
                    properties(ts, j + 1, ain, acc.push((key, v)))
                } else {
                    Ok((acc.push((key, v)), j))
                },
            }
        },
    }
}

#[verifier::opaque]
pub open spec fn function_expression(ts: Seq<Token>, i: int, ain: bool) -> Parsed<SFunction>
    decreases ts.len() - i, 40nat,
{
    if kind(ts, i) == TokenKind::Identifier {
        function_rest(ts, i + 1, ain, Some(text(ts, i)))
    } else {
        function_rest(ts, i, ain, None)
    }
}

/// Parameter names from `i`, after `acc`, up to (not with) `)`.
#[verifier::opaque]
pub open spec fn parameters(ts: Seq<Token>, i: int, acc: Seq<Seq<char>>) -> Parsed<Seq<Seq<char>>>
    decreases ts.len() - i,
{
    if !(0 <= i < ts.len()) {
        Err(i)
    } else if kind(ts, i) != TokenKind::Identifier {
        Err(i)
    } else if kind(ts, i + 1) == TokenKind::Comma {
        parameters(ts, i + 2, acc.push(text(ts, i)))
    } else if kind(ts, i + 1) == TokenKind::CloseParen {
        Ok((acc.push(text(ts, i)), i + 1))
    } else {
        Err(i + 1)
    }
}

pub open spec fn parameter_list(ts: Seq<Token>, i: int) -> Parsed<Seq<Seq<char>>> {
    if kind(ts, i) == TokenKind::CloseParen {
        Ok((Seq::empty(), i))
    } else {
        parameters(ts, i, Seq::empty())
    }
}

#[verifier::opaque]
pub open spec fn function_rest(ts: Seq<Token>, i: int, ain: bool, name: Option<Seq<char>>) -> Parsed<SFunction>
    decreases ts.len() - i, 39nat,
{
    if kind(ts, i) != TokenKind::OpenParen {
        Err(i)
    } else {
        match parameter_list(ts, i + 1) {
            Err(k) => Err(k),
            Ok((ps, j)) => if !onward(ts, i, j) {
                Err(j)
            } else if kind(ts, j) != TokenKind::CloseParen {
                Err(j)
            } else if kind(ts, j + 1) != TokenKind::OpenCurly {
                Err(j + 1)
            } else {
                match function_body(ts, j + 2, ain) {
                    Err(k) => Err(k),
                    Ok((body, k)) => Ok((SFunction { name, params: ps, body }, k)),
                }
            },
        }
    }
}

#[verifier::opaque]
pub open spec fn function_body(ts: Seq<Token>, i: int, ain: bool) -> Parsed<Seq<SStmt>>
    decreases ts.len() - i, 44nat,
{
    match statements(ts, i, ain, Seq::empty()) {
        Err(k) => Err(k),
        Ok((ss, j)) => if kind(ts, j) != TokenKind::CloseCurly {
            Err(j)
        } else {
            Ok((ss, j + 1))
        },
    }
}

#[verifier::opaque]
pub open spec fn function_declaration(ts: Seq<Token>, i: int, ain: bool) -> Parsed<SFunction>
    decreases ts.len() - i, 41nat,
{
    if kind(ts, i) != TokenKind::Function {
        Err(i)
    } else if kind(ts, i + 1) != TokenKind::Identifier {
        Err(i + 1)
    } else {
        function_rest(ts, i + 2, ain, Some(text(ts, i + 1)))
    }
}

/// The `{` at `i` opens an object literal: a key and a `:` follow it.
pub open spec fn object_ahead(ts: Seq<Token>, i: int) -> bool {
    let k = kind(ts, i + 1);
    (k == TokenKind::Identifier || k == TokenKind::String || k == TokenKind::Number) && kind(ts, i + 2)
        == TokenKind::DoubleDot
}

/// Where a statement ends: after a `;`, or before a token that may follow
/// without one.
pub open spec fn statement_end(ts: Seq<Token>, i: int) -> Result<int, int> {
    if kind(ts, i) == TokenKind::SemiColon {
        Ok(i + 1)
    } else if kind(ts, i) == TokenKind::CloseCurly || kind(ts, i) == TokenKind::EOF || (0 <= i < ts.len()
        && ts[i].line_terminator_before) {
        Ok(i)
    } else {
        Err(i)
    }
}

#[verifier::opaque]
pub open spec fn statement(ts: Seq<Token>, i: int, ain: bool) -> Parsed<SStmt>
    decreases ts.len() - i, 42nat,
{
    let k = kind(ts, i);
    if k == TokenKind::Function && kind(ts, i + 1) == TokenKind::Identifier {
        match function_declaration(ts, i, ain) {
            Err(e) => Err(e),
            Ok((f, j)) => Ok((SStmt::Function(f), j)),
        }
    } else if k == TokenKind::OpenCurly && !object_ahead(ts, i) {
        block(ts, i, ain)
    } else if k == TokenKind::SemiColon {
        Ok((SStmt::Empty, i + 1))
    } else if k == TokenKind::Var {
        variable_statement(ts, i, ain)
    } else if k == TokenKind::If {
        if_statement(ts, i, ain)
    } else if k == TokenKind::While || k == TokenKind::For {
        iteration(ts, i, ain)
    } else if k == TokenKind::Continue {
        match statement_end(ts, i + 1) {
            Err(e) => Err(e),
            Ok(j) => Ok((SStmt::Continue, j)),
        }
    } else if k == TokenKind::Break {
        match statement_end(ts, i + 1) {
            Err(e) => Err(e),
            Ok(j) => Ok((SStmt::Break, j)),
        }
    } else if k == TokenKind::Return {
        return_statement(ts, i, ain)
    } else if k == TokenKind::With {
        with_statement(ts, i, ain)
    } else {
        match expression(ts, i, ain) {
            Err(e) => Err(e),
            Ok((x, j)) => match statement_end(ts, j) {
                Err(e) => Err(e),
                Ok(m) => Ok((SStmt::Expr(x), m)),
            },
        }
    }
}

#[verifier::opaque]
pub open spec fn block(ts: Seq<Token>, i: int, ain: bool) -> Parsed<SStmt>
    decreases ts.len() - i, 41nat,
{
    if kind(ts, i) != TokenKind::OpenCurly {
        Err(i)
    } else {
        match statements(ts, i + 1, ain, Seq::empty()) {
            Err(k) => Err(k),
            Ok((ss, j)) => if kind(ts, j) != TokenKind::CloseCurly {
                Err(j)
            } else {
                Ok((SStmt::Block(ss), j + 1))
            },
        }
    }
}

/// Statements from `i`, after `acc`, up to (not with) `}` or the end.
#[verifier::opaque]
pub open spec fn statements(ts: Seq<Token>, i: int, ain: bool, acc: Seq<SStmt>) -> Parsed<Seq<SStmt>>
    decreases ts.len() - i, 43nat,
{
    if kind(ts, i) == TokenKind::CloseCurly || kind(ts, i) == TokenKind::EOF {
        Ok((acc, i))
    } else {
        match statement(ts, i, ain) {
            Err(k) => Err(k),
            Ok((s, j)) => if !onward(ts, i, j) {
                Err(j)
            } else {
                statements(ts, j, ain, acc.push(s))
            },
        }
    }
}

#[verifier::opaque]
pub open spec fn variable_statement(ts: Seq<Token>, i: int, ain: bool) -> Parsed<SStmt>
    decreases ts.len() - i, 41nat,
{
    if kind(ts, i) != TokenKind::Var {
        Err(i)
    } else {
        match declarations(ts, i + 1, ain) {
            Err(k) => Err(k),
            Ok((ds, j)) => match statement_end(ts, j) {
                Err(k) => Err(k),
                Ok(m) => Ok((SStmt::Var(ds), m)),
            },
        }
    }
}

#[verifier::opaque]
pub open spec fn declarations(ts: Seq<Token>, i: int, ain: bool) -> Parsed<Seq<(Seq<char>, Option<SExpr>)>>
    decreases ts.len() - i, 34nat,
{
    if kind(ts, i) != TokenKind::Identifier {
        Err(i)
    } else {
        declarations_rest(ts, i, ain, Seq::empty())
    }
}

/// Declarations from the name at `i`, after `acc`.
#[verifier::opaque]
pub open spec fn declarations_rest(
    ts: Seq<Token>,
    i: int,
    ain: bool,
    acc: Seq<(Seq<char>, Option<SExpr>)>,
) -> Parsed<Seq<(Seq<char>, Option<SExpr>)>>
    decreases ts.len() - i, 33nat,
{
    if !(0 <= i < ts.len()) {
        Err(i)
    } else {
        let name = text(ts, i);
        let init: Parsed<Option<SExpr>> = if kind(ts, i + 1) == TokenKind::Equal {
            match assignment(ts, i + 2, ain) {
                Err(k) => Err(k),
                Ok((e, j)) => Ok((Some(e), j)),
            }
        } else {
            Ok((None, i + 1))
        };
        match init {
            Err(k) => Err(k),
            Ok((x, j)) => if !onward(ts, i, j) {
                Err(j)
            } else if kind(ts, j) != TokenKind::Comma {
                Ok((acc.push((name, x)), j))
            } else if kind(ts, j + 1) != TokenKind::Identifier {
                Err(j + 1)
            } else {
                declarations_rest(ts, j + 1, ain, acc.push((name, x)))
            },
        }
    }
}

#[verifier::opaque]
pub open spec fn if_statement(ts: Seq<Token>, i: int, ain: bool) -> Parsed<SStmt>
    decreases ts.len() - i, 41nat,
{
    if kind(ts, i) != TokenKind::If {
        Err(i)
    } else if kind(ts, i + 1) != TokenKind::OpenParen {
        Err(i + 1)
    } else {
        match expression(ts, i + 2, ain) {
            Err(k) => Err(k),
            Ok((c, j)) => if !onward(ts, i, j) {
                Err(j)
            } else if kind(ts, j) != TokenKind::CloseParen {
                Err(j)
            } else {
                match statement(ts, j + 1, ain) {
                    Err(k) => Err(k),
                    Ok((t, k)) => if !onward(ts, j, k) {
                        Err(k)
                    } else if kind(ts, k) == TokenKind::Else {
                        match statement(ts, k + 1, ain) {
                            Err(m) => Err(m),
                            Ok((e, m)) => Ok((SStmt::If(c, Box::new(t), Some(Box::new(e))), m)),
                        }
                    } else {
                        Ok((SStmt::If(c, Box::new(t), None), k))
                    }
                }
            },
        }
    }
}

/// The rest of a `for-in` head from `i` (after `in`), and the body.
#[verifier::opaque]
pub open spec fn for_in_rest(ts: Seq<Token>, i: int, ain: bool, var: Seq<char>) -> Parsed<SStmt>
    decreases ts.len() - i, 40nat,
{
    match expression(ts, i, ain) {
        Err(k) => Err(k),
        Ok((x, j)) => if !onward(ts, i, j) {
            Err(j)
        } else if kind(ts, j) != TokenKind::CloseParen {
            Err(j)
        } else {
            match statement(ts, j + 1, ain) {
                Err(k) => Err(k),
                Ok((b, k)) => Ok((SStmt::ForIn(var, x, Box::new(b)), k)),
            }
        },
    }
}

/// The rest of a C-style `for` head from `i` (after the first `;`), and the
/// body.
#[verifier::opaque]
pub open spec fn for_rest(ts: Seq<Token>, i: int, ain: bool, init: Option<SForInit>) -> Parsed<SStmt>
    decreases ts.len() - i, 40nat,
{
    let cond: Parsed<Option<SExpr>> = if kind(ts, i) == TokenKind::SemiColon {
        Ok((None, i + 1))
    } else {
        match expression(ts, i, ain) {
            Err(k) => Err(k),
            Ok((c, j)) => if kind(ts, j) != TokenKind::SemiColon {
                Err(j)
            } else {
                Ok((Some(c), j + 1))
            },
        }
    };
    match cond {
        Err(k) => Err(k),
        Ok((c, j)) => if !onward(ts, i, j) {
            Err(j)
        } else {
            let update: Parsed<Option<SExpr>> = if kind(ts, j) == TokenKind::CloseParen {
                Ok((None, j + 1))
            } else {
                match expression(ts, j, ain) {
                    Err(k) => Err(k),
                    Ok((u, k)) => if kind(ts, k) != TokenKind::CloseParen {
                        Err(k)
                    } else {
                        Ok((Some(u), k + 1))
                    },
                }
            };
            match update {
                Err(k) => Err(k),
                Ok((u, k)) => if !onward(ts, j, k) {
                    Err(k)
                } else {
                    match statement(ts, k, ain) {
                        Err(m) => Err(m),
                        Ok((b, m)) => Ok((SStmt::For(init, c, u, Box::new(b)), m)),
                    }
                },
            }
        },
    }
}

/// A `for` head from `i` (after `for (`), and the body.
#[verifier::opaque]
pub open spec fn for_head(ts: Seq<Token>, i: int, ain: bool) -> Parsed<SStmt>
    decreases ts.len() - i, 40nat,
{
    if kind(ts, i) == TokenKind::Var {
        for_var(ts, i + 1, ain)
    } else if kind(ts, i) == TokenKind::SemiColon {
        for_rest(ts, i + 1, ain, None)
    } else if kind(ts, i) == TokenKind::Identifier && kind(ts, i + 1) == TokenKind::In {
        for_in_rest(ts, i + 2, ain, text(ts, i))
    } else {
        match expression(ts, i, false) {
            Err(k) => Err(k),
            Ok((x, j)) => if !onward(ts, i, j) {
                Err(j)
            } else if kind(ts, j) == TokenKind::In {
                match x {
                    SExpr::Identifier(n) => for_in_rest(ts, j + 1, ain, n),
                    _ => Err(j),
                }
            } else if kind(ts, j) != TokenKind::SemiColon {
                Err(j)
            } else {
                for_rest(ts, j + 1, ain, Some(SForInit::Expr(x)))
            },
        }
    }
}

/// A `for` head from `i` (after `for (var`), and the body.
#[verifier::opaque]
pub open spec fn for_var(ts: Seq<Token>, i: int, ain: bool) -> Parsed<SStmt>
    decreases ts.len() - i, 39nat,
{
    match declarations(ts, i, false) {
        Err(k) => Err(k),
        Ok((ds, j)) => if !onward(ts, i, j) {
            Err(j)
        } else if kind(ts, j) == TokenKind::In {
            if ds.len() != 1 {
                Err(j + 1)
            } else {
                for_in_rest(ts, j + 1, ain, ds[0].0)
            }
        } else if kind(ts, j) != TokenKind::SemiColon {
            Err(j)
        } else {
            for_rest(ts, j + 1, ain, Some(SForInit::Var(ds)))
        },
    }
}

#[verifier::opaque]
pub open spec fn iteration(ts: Seq<Token>, i: int, ain: bool) -> Parsed<SStmt>
    decreases ts.len() - i, 41nat,
{
    if kind(ts, i) == TokenKind::While {
        if kind(ts, i + 1) != TokenKind::OpenParen {
            Err(i + 1)
        } else {
            match expression(ts, i + 2, ain) {
                Err(k) => Err(k),
                Ok((c, j)) => if !onward(ts, i, j) {
                    Err(j)
                } else if kind(ts, j) != TokenKind::CloseParen {
                    Err(j)
                } else {
                    match statement(ts, j + 1, ain) {
                        Err(k) => Err(k),
                        Ok((b, k)) => Ok((SStmt::While(c, Box::new(b)), k)),
                    }
                },
            }
        }
    } else if kind(ts, i) != TokenKind::For {
        Err(i)
    } else if kind(ts, i + 1) != TokenKind::OpenParen {
        Err(i + 1)
    } else {
        for_head(ts, i + 2, ain)
    }
}

#[verifier::opaque]
pub open spec fn return_statement(ts: Seq<Token>, i: int, ain: bool) -> Parsed<SStmt>
    decreases ts.len() - i, 41nat,
{
    if kind(ts, i) != TokenKind::Return {
        Err(i)
    } else if kind(ts, i + 1) == TokenKind::SemiColon || statement_end(ts, i + 1) is Ok {
        match statement_end(ts, i + 1) {
            Err(k) => Err(k),
            Ok(j) => Ok((SStmt::Return(None), j)),
        }
    } else {
        match expression(ts, i + 1, ain) {
            Err(k) => Err(k),
            Ok((x, j)) => match statement_end(ts, j) {
                Err(k) => Err(k),
                Ok(m) => Ok((SStmt::Return(Some(x)), m)),
            },
        }
    }
}

#[verifier::opaque]
pub open spec fn with_statement(ts: Seq<Token>, i: int, ain: bool) -> Parsed<SStmt>
    decreases ts.len() - i, 41nat,
{
    if kind(ts, i) != TokenKind::With {
        Err(i)
    } else if kind(ts, i + 1) != TokenKind::OpenParen {
        Err(i + 1)
    } else {
        match expression(ts, i + 2, ain) {
            Err(k) => Err(k),
            Ok((x, j)) => if !onward(ts, i, j) {
                Err(j)
            } else if kind(ts, j) != TokenKind::CloseParen {
                Err(j)
            } else {
                match statement(ts, j + 1, ain) {
                    Err(k) => Err(k),
                    Ok((b, k)) => Ok((SStmt::With(x, Box::new(b)), k)),
                }
            },
        }
    }
}

/// A program: the statements from `i` to the end of the input, after `acc`.
#[verifier::opaque]
pub open spec fn program(ts: Seq<Token>, i: int, acc: Seq<SStmt>) -> Result<Seq<SStmt>, int>
    decreases ts.len() - i,
{
    if kind(ts, i) == TokenKind::EOF {
        Ok(acc)
    } else {
        match statement(ts, i, true) {
            Err(k) => Err(k),
            Ok((s, j)) => if !onward(ts, i, j) {
                Err(j)
            } else {
                program(ts, j, acc.push(s))
            },
        }
    }
}

} // verus!
