//! The syntax tree. Every node owns its children.
use vstd::prelude::*;

verus! {

#[derive(PartialEq, Debug)]
pub enum Expr {
    Identifier(String),
    Literal(Literal),
    This,
    AssignOp(AssignOp),
    Empty,
    Binary { op: BinOp, left: Box<Expr>, right: Box<Expr> },
    /// `++x` and `--x` (`prefix`), `x++` and `x--`.
    Update { op: UpdateOp, prefix: bool, argument: Box<Expr> },
    Unary { op: UnaryOp, expr: Box<Expr> },
    Assign { target: Box<Expr>, op: AssignOp, value: Box<Expr> },
    Ternary { cond: Box<Expr>, then_: Box<Expr>, else_: Box<Expr> },
    /// `a.b`
    Member { object: Box<Expr>, property: String },
    /// `a[b]`
    Index { object: Box<Expr>, index: Box<Expr> },
    /// `f(x)`; the arguments are a `Sequence`.
    Call { callee: Box<Expr>, args: Box<Expr> },
    /// `new F(x)`; the arguments are a `Sequence`.
    New { callee: Box<Expr>, args: Box<Expr> },
    /// `1, 2, 3`
    Sequence(Vec<Expr>),
    Function(Function),
}

#[derive(PartialEq, Debug)]
pub enum Literal {
    Null,
    Undefined,
    Bool(bool),
    /// A number as written in the source, a decimal literal such as `16.2`
    /// or `1e3`; its value is the 64-bit float nearest to it.
    Number(String),
    /// The text between the quotes, escape sequences as written.
    String(String),
    /// The elements; an elided element is `Undefined`.
    Array(Vec<Expr>),
    /// `{ a: 1, b: 2 }`, in the order written.
    Object(Vec<(PropertyKey, Expr)>),
}

#[derive(PartialEq, Debug)]
pub enum PropertyKey {
    Identifier(String),
    String(String),
    /// A number as written, as in `Literal::Number`.
    Number(String),
}

#[derive(PartialEq, Eq, Debug, Clone, Copy, Structural)]
pub enum BinOp {
    Add,
    Sub,
    Mul,
    Div,
    Mod,
    Eq,
    Ne,
    Lt,
    Gt,
    Le,
    Ge,
    And,
    Or,
    BitAnd,
    BitOr,
    BitXor,
    Shl,
    Shr,
    UShr,
    In,
}

#[derive(PartialEq, Eq, Debug, Clone, Copy, Structural)]
pub enum UnaryOp {
    Pos,
    Neg,
    Not,
    BitNot,
    Typeof,
    Void,
    Delete,
    PreInc,
    PreDec,
    PostInc,
    PostDec,
}

#[derive(PartialEq, Debug)]
pub enum Stmt {
    Block(Vec<Stmt>),
    Var(Vec<(String, Option<Expr>)>),
    Empty,
    Expr(Expr),
    If { cond: Expr, then_: Box<Stmt>, else_: Option<Box<Stmt>> },
    While { cond: Expr, body: Box<Stmt> },
    For { init: Option<ForInit>, cond: Option<Expr>, update: Option<Expr>, body: Box<Stmt> },
    ForIn { var: String, expr: Expr, body: Box<Stmt> },
    Continue,
    Break,
    Return(Option<Expr>),
    With { expr: Expr, body: Box<Stmt> },
    Function(Function),
}

#[derive(PartialEq, Debug)]
pub enum ForInit {
    Var(Vec<(String, Option<Expr>)>),
    Expr(Expr),
}

#[derive(PartialEq, Debug)]
pub struct Function {
    pub name: Option<String>,
    pub params: Vec<String>,
    pub body: Vec<Stmt>,
}

#[derive(PartialEq, Debug)]
pub struct Program {
    pub body: Vec<Stmt>,
}

#[derive(PartialEq, Eq, Debug, Clone, Copy, Structural)]
pub enum AssignOp {
    Assign,
    AddAssign,
    SubAssign,
    MulAssign,
    DivAssign,
    ModAssign,
    ShlAssign,
    ShrAssign,
    UShrAssign,
    BitAndAssign,
    BitOrAssign,
    BitXorAssign,
}

#[derive(PartialEq, Eq, Debug, Clone, Copy, Structural)]
pub enum UpdateOp {
    Inc,
    Dec,
}

} // verus!
