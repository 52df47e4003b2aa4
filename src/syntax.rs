//! The syntax tree as a mathematical value, and the view of each node of
//! `ast` as one. Names and texts are character sequences; lists are `Seq`s.
use vstd::prelude::*;

use crate::ast::{AssignOp, BinOp, Expr, ForInit, Function, Literal, PropertyKey, Stmt, UnaryOp, UpdateOp};

verus! {

pub enum SExpr {
    Identifier(Seq<char>),
    Literal(SLiteral),
    This,
    AssignOp(AssignOp),
    Empty,
    Binary(BinOp, Box<SExpr>, Box<SExpr>),
    Update(UpdateOp, bool, Box<SExpr>),
    Unary(UnaryOp, Box<SExpr>),
    Assign(Box<SExpr>, AssignOp, Box<SExpr>),
    Ternary(Box<SExpr>, Box<SExpr>, Box<SExpr>),
    Member(Box<SExpr>, Seq<char>),
    Index(Box<SExpr>, Box<SExpr>),
    Call(Box<SExpr>, Box<SExpr>),
    New(Box<SExpr>, Box<SExpr>),
    Sequence(Seq<SExpr>),
    Function(SFunction),
}

pub enum SLiteral {
    Null,
    Undefined,
    Bool(bool),
    Number(Seq<char>),
    String(Seq<char>),
    Array(Seq<SExpr>),
    Object(Seq<(SKey, SExpr)>),
}

pub enum SKey {
    Identifier(Seq<char>),
    String(Seq<char>),
    Number(Seq<char>),
}

pub struct SFunction {
    pub name: Option<Seq<char>>,
    pub params: Seq<Seq<char>>,
    pub body: Seq<SStmt>,
}

pub enum SStmt {
    Block(Seq<SStmt>),
    Var(Seq<(Seq<char>, Option<SExpr>)>),
    Empty,
    Expr(SExpr),
    If(SExpr, Box<SStmt>, Option<Box<SStmt>>),
    While(SExpr, Box<SStmt>),
    For(Option<SForInit>, Option<SExpr>, Option<SExpr>, Box<SStmt>),
    ForIn(Seq<char>, SExpr, Box<SStmt>),
    Continue,
    Break,
    Return(Option<SExpr>),
    With(SExpr, Box<SStmt>),
    Function(SFunction),
}

pub enum SForInit {
    Var(Seq<(Seq<char>, Option<SExpr>)>),
    Expr(SExpr),
}

pub open spec fn key_view(k: PropertyKey) -> SKey {
    match k {
        PropertyKey::Identifier(s) => SKey::Identifier(s@),
        PropertyKey::String(s) => SKey::String(s@),
        PropertyKey::Number(s) => SKey::Number(s@),
    }
}

pub open spec fn names_view(s: Seq<String>) -> Seq<Seq<char>> {
    s.map_values(|n: String| n@)
}

pub open spec fn expr_view(e: Expr) -> SExpr
    decreases e,
{
    match e {
        Expr::Identifier(s) => SExpr::Identifier(s@),
        Expr::Literal(l) => SExpr::Literal(
            match l {
                Literal::Null => SLiteral::Null,
                Literal::Undefined => SLiteral::Undefined,
                Literal::Bool(b) => SLiteral::Bool(b),
                Literal::Number(s) => SLiteral::Number(s@),
                Literal::String(s) => SLiteral::String(s@),
                Literal::Array(v) => SLiteral::Array(exprs_view(v@)),
                Literal::Object(v) => SLiteral::Object(props_view(v@)),
            },
        ),
        Expr::This => SExpr::This,
        Expr::AssignOp(op) => SExpr::AssignOp(op),
        Expr::Empty => SExpr::Empty,
        Expr::Binary { op, left, right } => SExpr::Binary(op, Box::new(expr_view(*left)), Box::new(expr_view(*right))),
        Expr::Update { op, prefix, argument } => SExpr::Update(op, prefix, Box::new(expr_view(*argument))),
        Expr::Unary { op, expr } => SExpr::Unary(op, Box::new(expr_view(*expr))),
        Expr::Assign { target, op, value } => SExpr::Assign(
            Box::new(expr_view(*target)),
            op,
            Box::new(expr_view(*value)),
        ),
        Expr::Ternary { cond, then_, else_ } => SExpr::Ternary(
            Box::new(expr_view(*cond)),
            Box::new(expr_view(*then_)),
            Box::new(expr_view(*else_)),
        ),
        Expr::Member { object, property } => SExpr::Member(Box::new(expr_view(*object)), property@),
        Expr::Index { object, index } => SExpr::Index(Box::new(expr_view(*object)), Box::new(expr_view(*index))),
        Expr::Call { callee, args } => SExpr::Call(Box::new(expr_view(*callee)), Box::new(expr_view(*args))),
        Expr::New { callee, args } => SExpr::New(Box::new(expr_view(*callee)), Box::new(expr_view(*args))),
        Expr::Sequence(v) => SExpr::Sequence(exprs_view(v@)),
        Expr::Function(f) => SExpr::Function(function_view(f)),
    }
}

pub open spec fn exprs_view(s: Seq<Expr>) -> Seq<SExpr>
    decreases s,
{
    if s.len() == 0 {
        Seq::empty()
    } else {
        exprs_view(s.subrange(0, s.len() - 1)).push(expr_view(s[s.len() - 1]))
    }
}

pub open spec fn props_view(s: Seq<(PropertyKey, Expr)>) -> Seq<(SKey, SExpr)>
    decreases s,
{
    if s.len() == 0 {
        Seq::empty()
    } else {
        props_view(s.subrange(0, s.len() - 1)).push((key_view(s[s.len() - 1].0), expr_view(s[s.len() - 1].1)))
    }
}

pub open spec fn decls_view(s: Seq<(String, Option<Expr>)>) -> Seq<(Seq<char>, Option<SExpr>)>
    decreases s,
{
    if s.len() == 0 {
        Seq::empty()
    } else {
        let d = s[s.len() - 1];
        decls_view(s.subrange(0, s.len() - 1)).push(
            (
                d.0@,
                match d.1 {
                    Some(e) => Some(expr_view(e)),
                    None => None,
                },
            ),
        )
    }
}

pub open spec fn function_view(f: Function) -> SFunction
    decreases f,
{
    SFunction {
        name: match f.name {
            Some(n) => Some(n@),
            None => None,
        },
        params: names_view(f.params@),
        body: stmts_view(f.body@),
    }
}

pub open spec fn stmt_view(s: Stmt) -> SStmt
    decreases s,
{
    match s {
        Stmt::Block(v) => SStmt::Block(stmts_view(v@)),
        Stmt::Var(v) => SStmt::Var(decls_view(v@)),
        Stmt::Empty => SStmt::Empty,
        Stmt::Expr(e) => SStmt::Expr(expr_view(e)),
        Stmt::If { cond, then_, else_ } => SStmt::If(
            expr_view(cond),
            Box::new(stmt_view(*then_)),
            match else_ {
                Some(b) => Some(Box::new(stmt_view(*b))),
                None => None,
            },
        ),
        Stmt::While { cond, body } => SStmt::While(expr_view(cond), Box::new(stmt_view(*body))),
        Stmt::For { init, cond, update, body } => SStmt::For(
            for_init_view(init),
            match cond {
                Some(e) => Some(expr_view(e)),
                None => None,
            },
            match update {
                Some(e) => Some(expr_view(e)),
                None => None,
            },
            Box::new(stmt_view(*body)),
        ),
        Stmt::ForIn { var, expr, body } => SStmt::ForIn(var@, expr_view(expr), Box::new(stmt_view(*body))),
        Stmt::Continue => SStmt::Continue,
        Stmt::Break => SStmt::Break,
        Stmt::Return(e) => SStmt::Return(
            match e {
                Some(e) => Some(expr_view(e)),
                None => None,
            },
        ),
        Stmt::With { expr, body } => SStmt::With(expr_view(expr), Box::new(stmt_view(*body))),
        Stmt::Function(f) => SStmt::Function(function_view(f)),
    }
}

pub open spec fn for_init_view(init: Option<ForInit>) -> Option<SForInit>
    decreases init,
{
    match init {
        Some(ForInit::Var(v)) => Some(SForInit::Var(decls_view(v@))),
        Some(ForInit::Expr(e)) => Some(SForInit::Expr(expr_view(e))),
        None => None,
    }
}

pub open spec fn opt_view(o: Option<Expr>) -> Option<SExpr> {
    match o {
        Some(e) => Some(expr_view(e)),
        None => None,
    }
}

pub open spec fn stmts_view(s: Seq<Stmt>) -> Seq<SStmt>
    decreases s,
{
    if s.len() == 0 {
        Seq::empty()
    } else {
        stmts_view(s.subrange(0, s.len() - 1)).push(stmt_view(s[s.len() - 1]))
    }
}

pub proof fn lemma_exprs_view_push(s: Seq<Expr>, e: Expr)
    ensures
        exprs_view(s.push(e)) == exprs_view(s).push(expr_view(e)),
{
    assert(s.push(e).subrange(0, s.len() as int) =~= s);
}

pub proof fn lemma_props_view_push(s: Seq<(PropertyKey, Expr)>, p: (PropertyKey, Expr))
    ensures
        props_view(s.push(p)) == props_view(s).push((key_view(p.0), expr_view(p.1))),
{
    assert(s.push(p).subrange(0, s.len() as int) =~= s);
}

pub proof fn lemma_decls_view_push(s: Seq<(String, Option<Expr>)>, d: (String, Option<Expr>))
    ensures
        decls_view(s.push(d)) == decls_view(s).push((d.0@, opt_view(d.1))),
{
    assert(s.push(d).subrange(0, s.len() as int) =~= s);
}

pub proof fn lemma_stmts_view_push(s: Seq<Stmt>, x: Stmt)
    ensures
        stmts_view(s.push(x)) == stmts_view(s).push(stmt_view(x)),
{
    assert(s.push(x).subrange(0, s.len() as int) =~= s);
}

pub proof fn lemma_names_view_push(s: Seq<String>, n: String)
    ensures
        names_view(s.push(n)) == names_view(s).push(n@),
{
    assert(names_view(s.push(n)) =~= names_view(s).push(n@));
}

pub proof fn lemma_decls_view_names(s: Seq<(String, Option<Expr>)>)
    ensures
        decls_view(s).len() == s.len(),
        forall|k: int| 0 <= k < s.len() ==> #[trigger] decls_view(s)[k].0 == s[k].0@,
    decreases s.len(),
{
    if s.len() > 0 {
        let p = s.subrange(0, s.len() - 1);
        lemma_decls_view_names(p);
        assert forall|k: int| 0 <= k < s.len() implies #[trigger] decls_view(s)[k].0 == s[k].0@ by {
            if k < s.len() - 1 {
                assert(p[k] == s[k]);
            }
        }
    }
}

} // verus!
