//! The source a module was parsed into.

use vstd::prelude::*;

use crate::inst::FloatLiteral;
use crate::span::Span;

verus! {

/// An operator with one operand.
#[derive(Debug, Clone, Copy, PartialEq, Eq, Structural)]
pub enum UnaryOp {
    Not,
    Negate,
    BitNot,
}

/// An operator with two operands, as it is written.
#[derive(Debug, Clone, Copy, PartialEq, Eq, Structural)]
pub enum BinaryOp {
    Add,
    Subtract,
    Multiply,
    Divide,
    IntegerDivide,
    Remainder,
    Power,
    Concat,
    Equal,
    NotEqual,
    Less,
    LessEqual,
    Greater,
    GreaterEqual,
    BitAnd,
    BitOr,
    BitXor,
    ShiftLeft,
    ShiftRight,
    And,
    Or,
    Coalesce,
}

/// An expression, and where it stands.
#[derive(Debug)]
pub struct Expr {
    pub kind: ExprKind,
    pub span: Span,
}

/// What an expression is.
#[derive(Debug)]
pub enum ExprKind {
    Nil,
    Bool(bool),
    /// The value, as the bits that spell it.
    Integer(u64),
    Float(FloatLiteral),
    Text(String),
    ByteText(Vec<u8>),
    Char(char),
    Interpolation(Vec<InterpolationPart>),
    Name(String),
    Unary { op: UnaryOp, operand: Box<Expr> },
    Binary { op: BinaryOp, op_span: Span, left: Box<Expr>, right: Box<Expr> },
    Range { start: Option<Box<Expr>>, end: Option<Box<Expr>>, inclusive: bool },
    /// `callee(args)`, or `callee:method(args)`.
    Call { callee: Box<Expr>, method: Option<String>, args: Vec<Argument> },
    Field { receiver: Box<Expr>, name: String, optional: bool },
    Index { receiver: Box<Expr>, index: Box<Expr>, optional: bool },
    Try(Box<Expr>),
    Await(Box<Expr>),
    AddressOf { mutable: bool, operand: Box<Expr> },
    Cast { value: Box<Expr> },
    TypeTest { value: Box<Expr> },
    Tuple(Vec<Expr>),
    List(Vec<Expr>),
    SetOf(Vec<Expr>),
    MapOf(Vec<MapEntry>),
    Record { path: Vec<String>, fields: Vec<FieldInit> },
    Function { asynchronous: bool, params: Vec<Param>, body: Box<FunctionBody> },
    Match { scrutinee: Box<Expr>, arms: Vec<MatchArm> },
    If { branches: Vec<IfBranch>, otherwise: Box<Expr> },
    /// What did not parse.
    Error,
}

/// One part of an interpolated string.
#[derive(Debug)]
pub enum InterpolationPart {
    Text(String),
    Expr(Expr),
}

/// An argument of a call, with the parameter it names where it names one.
#[derive(Debug)]
pub struct Argument {
    pub name: Option<String>,
    pub value: Expr,
    pub span: Span,
}

/// An entry of a map literal.
#[derive(Debug)]
pub struct MapEntry {
    pub key: MapKey,
    pub value: Expr,
}

/// A key written as a name, or computed.
#[derive(Debug)]
pub enum MapKey {
    Name(String),
    Computed(Expr),
}

/// A field of a record literal.
#[derive(Debug)]
pub struct FieldInit {
    pub name: String,
    pub value: Expr,
    pub span: Span,
}

/// A branch of an `if` expression.
#[derive(Debug)]
pub struct IfBranch {
    pub condition: Expr,
    pub value: Expr,
}

/// A parameter as it is written.
#[derive(Debug)]
pub struct Param {
    pub binding: Binding,
    pub default: Option<Expr>,
}

/// What a closure does.
#[derive(Debug)]
pub enum FunctionBody {
    Block(Block),
    Expr(Expr),
}

/// A case of a `match`.
#[derive(Debug)]
pub struct MatchArm {
    pub pattern: Pattern,
    pub guard: Option<Expr>,
    pub body: ArmBody,
}

/// What a case does.
#[derive(Debug)]
pub enum ArmBody {
    Block(Block),
    Expr(Expr),
}

/// A pattern, and where it stands.
#[derive(Debug)]
pub struct Pattern {
    pub kind: PatternKind,
    pub span: Span,
}

/// What a pattern is.
#[derive(Debug)]
pub enum PatternKind {
    Wildcard,
    Binding(String),
    Or(Vec<Pattern>),
    Path { segments: Vec<String>, payload: Option<Payload> },
    Tuple(Vec<Pattern>),
    Literal(Box<Expr>),
    /// What did not parse.
    Error,
}

/// What a path pattern lists of what a variant or a struct carries.
#[derive(Debug)]
pub enum Payload {
    Tuple(Vec<Pattern>),
    Record(Vec<FieldPattern>),
}

/// A field of a record pattern.
#[derive(Debug)]
pub struct FieldPattern {
    pub field: String,
    pub bound_as: Option<String>,
    pub pattern: Option<Pattern>,
    pub span: Span,
}

/// What a declaration binds.
#[derive(Debug)]
pub enum Binding {
    Name(String),
    Record(Vec<FieldBinding>),
    Tuple(Vec<Binding>),
    /// What did not parse.
    Error,
}

/// A field of a record binding.
#[derive(Debug)]
pub struct FieldBinding {
    pub field: String,
    pub bound_as: Option<String>,
    pub span: Span,
}

/// Statements in the order they are written.
#[derive(Debug)]
pub struct Block {
    pub stmts: Vec<Stmt>,
    pub span: Span,
}

/// A statement, and where it stands.
#[derive(Debug)]
pub struct Stmt {
    pub kind: StmtKind,
    pub span: Span,
}

/// What a statement is.
#[derive(Debug)]
pub enum StmtKind {
    Local { binding: Binding, value: Option<Expr> },
    Const { binding: Binding, value: Expr },
    Assign { target: Expr, op: Option<BinaryOp>, value: Expr },
    If { branches: Vec<Branch>, otherwise: Option<Block> },
    While { label: Option<String>, condition: Expr, body: Block },
    Repeat { label: Option<String>, body: Block, until: Expr },
    For { label: Option<String>, bindings: Vec<Binding>, iterable: Expr, body: Block },
    Break(Option<String>),
    Continue(Option<String>),
    Match { scrutinee: Expr, arms: Vec<MatchArm> },
    Return(Option<Expr>),
    Defer(Expr),
    Throw(Expr),
    Try { body: Block, catches: Vec<CatchClause>, finally: Option<Block> },
    Unsafe(Block),
    Expr(Expr),
    /// What did not parse.
    Error,
}

/// A branch of an `if` statement.
#[derive(Debug)]
pub struct Branch {
    pub condition: Expr,
    pub body: Block,
}

/// A clause that catches what a block throws, of one type or of any.
#[derive(Debug)]
pub struct CatchClause {
    pub typed: bool,
    pub name: String,
    pub body: Block,
    pub span: Span,
}

/// A parsed module: its declarations, and the statements written outside them.
#[derive(Debug)]
pub struct Module {
    pub items: Vec<Item>,
    /// What runs when the module is first reached, in the order it is written.
    pub body: Block,
    pub span: Span,
}

/// A declaration.
#[derive(Debug)]
pub enum Item {
    Function(FunctionItem),
    Struct(StructItem),
    Enum(EnumItem),
    Interface(InterfaceItem),
    Extend(ExtendItem),
    /// One that makes no code: an import, an alias.
    Other,
}

/// `@name(args)`.
#[derive(Debug)]
pub struct Decorator {
    pub name: String,
    pub args: Vec<Argument>,
}

/// A function declaration.
#[derive(Debug)]
pub struct FunctionItem {
    /// The parts of the path naming it.
    pub name: Vec<String>,
    pub decorators: Vec<Decorator>,
    pub exported: bool,
    /// The parameters as written, with `self` among them where it is taken.
    pub params: Vec<Param>,
    pub body: Option<Block>,
    pub span: Span,
}

/// A struct declaration.
#[derive(Debug)]
pub struct StructItem {
    pub name: String,
    pub decorators: Vec<Decorator>,
    /// Whether it is a `ref struct`.
    pub reference: bool,
    pub members: Vec<Member>,
    pub span: Span,
}

/// Something written inside a struct.
#[derive(Debug)]
pub enum Member {
    /// A stored field, and the default beside it.
    Field(Option<Expr>),
    Function(FunctionItem),
    Property(PropertyItem),
}

/// A computed member.
#[derive(Debug)]
pub struct PropertyItem {
    pub name: String,
    pub get: Block,
    pub set: Option<Setter>,
    pub span: Span,
}

/// What writing a property runs.
#[derive(Debug)]
pub struct Setter {
    pub param: String,
    pub body: Block,
    pub span: Span,
}

/// An enum declaration, its variants in the order they are written.
#[derive(Debug)]
pub struct EnumItem {
    pub name: String,
    pub variants: Vec<String>,
    pub span: Span,
}

/// An interface declaration.
#[derive(Debug)]
pub struct InterfaceItem {
    pub name: String,
    pub span: Span,
}

/// A block that adds methods to a type.
#[derive(Debug)]
pub struct ExtendItem {
    pub name: String,
    pub functions: Vec<FunctionItem>,
}

} // verus!
