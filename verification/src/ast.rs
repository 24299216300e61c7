//! The tree the parser builds: programs, declarations, statements,
//! expressions and patterns.
use vstd::prelude::*;

verus! {

pub type Identifier = String;

/// A whole program: a module or a script.
#[derive(Debug, PartialEq)]
pub enum Program {
    Mod(Vec<ProgramPart>),
    Script(Vec<ProgramPart>),
}

/// A top level part of a program or of a function body.
#[derive(Debug, PartialEq)]
pub enum ProgramPart {
    Dir(Dir),
    Decl(Decl),
    Stmt(Stmt),
}

/// A directive such as `'use strict';`
#[derive(Debug, PartialEq)]
pub struct Dir {
    pub expr: Literal,
    pub dir: String,
}

#[derive(Debug, PartialEq)]
pub struct Function {
    pub id: Option<Identifier>,
    pub params: Vec<FunctionArg>,
    pub body: FunctionBody,
    pub generator: bool,
    pub is_async: bool,
}

#[derive(Debug, PartialEq)]
pub enum FunctionArg {
    Expr(Expr),
    Pat(Pat),
}

pub type FunctionBody = Vec<ProgramPart>;

#[derive(Debug, PartialEq)]
pub struct Class {
    pub id: Option<Identifier>,
    pub super_class: Option<Box<Expr>>,
    pub body: Vec<Property>,
}

#[derive(Clone, Copy, Debug, PartialEq, Eq, Structural)]
pub enum VariableKind {
    Var,
    Let,
    Const,
}

#[derive(Debug, PartialEq)]
pub enum Decl {
    Variable(VariableKind, Vec<VariableDecl>),
    Function(Function),
    Class(Class),
    Import(Box<ModImport>),
    Export(Box<ModExport>),
}

#[derive(Debug, PartialEq)]
pub struct VariableDecl {
    pub id: Pat,
    pub init: Option<Expr>,
}

#[derive(Debug, PartialEq)]
pub struct ModImport {
    pub specifiers: Vec<ImportSpecifier>,
    pub source: Literal,
}

#[derive(Debug, PartialEq)]
pub enum ImportSpecifier {
    Normal(Identifier, Option<Identifier>),
    Default(Identifier),
    Namespace(Identifier),
}

#[derive(Debug, PartialEq)]
pub enum ModExport {
    Default(DefaultExportDecl),
    Named(NamedExportDecl),
    All(Literal),
}

#[derive(Debug, PartialEq)]
pub enum NamedExportDecl {
    Decl(Decl),
    Specifier(Vec<ExportSpecifier>, Option<Literal>),
}

#[derive(Debug, PartialEq)]
pub enum DefaultExportDecl {
    Decl(Decl),
    Expr(Expr),
}

#[derive(Debug, PartialEq)]
pub struct ExportSpecifier {
    pub local: Identifier,
    pub exported: Option<Identifier>,
}

#[derive(Debug, PartialEq)]
pub enum Expr {
    Array(ArrayExpr),
    ArrowFunction(ArrowFunctionExpr),
    ArrowParamPlaceHolder(Vec<FunctionArg>, bool),
    Assignment(AssignmentExpr),
    Await(Box<Expr>),
    Binary(BinaryExpr),
    Class(Class),
    Call(CallExpr),
    Conditional(ConditionalExpr),
    Function(Function),
    Ident(Identifier),
    Literal(Literal),
    Logical(LogicalExpr),
    Member(MemberExpr),
    MetaProperty(MetaProperty),
    New(NewExpr),
    Object(ObjectExpr),
    Sequence(SequenceExpr),
    Spread(Box<Expr>),
    Super,
    TaggedTemplate(TaggedTemplateExpr),
    This,
    Unary(UnaryExpr),
    Update(UpdateExpr),
    Yield(YieldExpr),
}

pub type ArrayExpr = Vec<Option<Expr>>;

pub type ObjectExpr = Vec<ObjectProperty>;

pub type SequenceExpr = Vec<Expr>;

#[derive(Debug, PartialEq)]
pub enum ObjectProperty {
    Property(Property),
    Spread(Box<Expr>),
}

#[derive(Debug, PartialEq)]
pub struct Property {
    pub key: PropertyKey,
    pub value: PropertyValue,
    pub kind: PropertyKind,
    pub method: bool,
    pub computed: bool,
    pub short_hand: bool,
}

#[derive(Debug, PartialEq)]
pub enum PropertyKey {
    Literal(Literal),
    Expr(Expr),
    Pat(Pat),
}

#[derive(Debug, PartialEq)]
pub enum PropertyValue {
    Expr(Expr),
    Pat(Pat),
    /// No value
    NoValue,
}

#[derive(Clone, Copy, Debug, PartialEq, Eq, Structural)]
pub enum PropertyKind {
    Init,
    Get,
    /// A setter
    Setter,
    Ctor,
    Method,
}

#[derive(Clone, Copy, Debug, PartialEq, Eq, Structural)]
pub enum UnaryOperator {
    Minus,
    Plus,
    Not,
    Tilde,
    TypeOf,
    Void,
    Delete,
}

#[derive(Clone, Copy, Debug, PartialEq, Eq, Structural)]
pub enum UpdateOperator {
    Increment,
    Decrement,
}

#[derive(Clone, Copy, Debug, PartialEq, Eq, Structural)]
pub enum BinaryOperator {
    Equal,
    NotEqual,
    StrictEqual,
    StrictNotEqual,
    LessThan,
    GreaterThan,
    LessThanEqual,
    GreaterThanEqual,
    LeftShift,
    RightShift,
    UnsignedRightShift,
    Plus,
    Minus,
    Times,
    Over,
    Mod,
    Or,
    XOr,
    And,
    In,
    InstanceOf,
    PowerOf,
}

#[derive(Clone, Copy, Debug, PartialEq, Eq, Structural)]
pub enum AssignmentOperator {
    Equal,
    PlusEqual,
    MinusEqual,
    TimesEqual,
    DivEqual,
    ModEqual,
    LeftShiftEqual,
    RightShiftEqual,
    UnsignedRightShiftEqual,
    OrEqual,
    XOrEqual,
    AndEqual,
    PowerOfEqual,
}

#[derive(Clone, Copy, Debug, PartialEq, Eq, Structural)]
pub enum LogicalOperator {
    Or,
    And,
}

#[derive(Debug, PartialEq)]
pub struct UnaryExpr {
    pub operator: UnaryOperator,
    pub prefix: bool,
    pub argument: Box<Expr>,
}

#[derive(Debug, PartialEq)]
pub struct UpdateExpr {
    pub operator: UpdateOperator,
    pub argument: Box<Expr>,
    pub prefix: bool,
}

#[derive(Debug, PartialEq)]
pub struct BinaryExpr {
    pub operator: BinaryOperator,
    pub left: Box<Expr>,
    pub right: Box<Expr>,
}

#[derive(Debug, PartialEq)]
pub struct AssignmentExpr {
    pub operator: AssignmentOperator,
    pub left: AssignmentLeft,
    pub right: Box<Expr>,
}

#[derive(Debug, PartialEq)]
pub enum AssignmentLeft {
    Pat(Pat),
    Expr(Box<Expr>),
}

#[derive(Debug, PartialEq)]
pub struct LogicalExpr {
    pub operator: LogicalOperator,
    pub left: Box<Expr>,
    pub right: Box<Expr>,
}

#[derive(Debug, PartialEq)]
pub struct MemberExpr {
    pub object: Box<Expr>,
    pub property: Box<Expr>,
    pub computed: bool,
}

#[derive(Debug, PartialEq)]
pub struct ConditionalExpr {
    pub test: Box<Expr>,
    pub alternate: Box<Expr>,
    pub consequent: Box<Expr>,
}

#[derive(Debug, PartialEq)]
pub struct CallExpr {
    pub callee: Box<Expr>,
    pub arguments: Vec<Expr>,
}

#[derive(Debug, PartialEq)]
pub struct NewExpr {
    pub callee: Box<Expr>,
    pub arguments: Vec<Expr>,
}

#[derive(Debug, PartialEq)]
pub struct ArrowFunctionExpr {
    pub id: Option<Identifier>,
    pub params: Vec<FunctionArg>,
    pub body: ArrowFunctionBody,
    pub expression: bool,
    pub generator: bool,
    pub is_async: bool,
}

#[derive(Debug, PartialEq)]
pub enum ArrowFunctionBody {
    FunctionBody(FunctionBody),
    Expr(Box<Expr>),
}

#[derive(Debug, PartialEq)]
pub struct YieldExpr {
    pub argument: Option<Box<Expr>>,
    pub delegate: bool,
}

#[derive(Debug, PartialEq)]
pub struct TaggedTemplateExpr {
    pub tag: Box<Expr>,
    pub quasi: TemplateLiteral,
}

#[derive(Debug, PartialEq)]
pub struct TemplateLiteral {
    pub quasis: Vec<TemplateElement>,
    pub expressions: Vec<Expr>,
}

#[derive(Debug, PartialEq)]
pub struct TemplateElement {
    pub tail: bool,
    pub cooked: String,
    pub raw: String,
}

#[derive(Debug, PartialEq)]
pub struct MetaProperty {
    pub meta: Identifier,
    pub property: Identifier,
}

#[derive(Debug, PartialEq)]
pub enum Literal {
    Null,
    String(String),
    Number(String),
    Boolean(bool),
    RegEx(RegEx),
    Template(TemplateLiteral),
}

#[derive(Debug, PartialEq)]
pub struct RegEx {
    pub pattern: String,
    pub flags: String,
}

#[derive(Debug, PartialEq)]
pub enum Pat {
    Identifier(Identifier),
    Object(ObjectPat),
    Array(Vec<Option<ArrayPatPart>>),
    RestElement(Box<Pat>),
    Assignment(AssignmentPat),
}

#[derive(Debug, PartialEq)]
pub enum ArrayPatPart {
    Pat(Pat),
    Expr(Expr),
}

pub type ObjectPat = Vec<ObjectPatPart>;

#[derive(Debug, PartialEq)]
pub enum ObjectPatPart {
    Assignment(Property),
    Rest(Box<Pat>),
}

#[derive(Debug, PartialEq)]
pub struct AssignmentPat {
    pub left: Box<Pat>,
    pub right: Box<Expr>,
}

#[derive(Debug, PartialEq)]
pub enum Stmt {
    Expr(Expr),
    Block(BlockStmt),
    Empty,
    Debugger,
    With(WithStmt),
    Return(Option<Expr>),
    Labeled(LabeledStmt),
    Break(Option<Identifier>),
    Continue(Option<Identifier>),
    If(IfStmt),
    Switch(SwitchStmt),
    Throw(Expr),
    Try(TryStmt),
    While(WhileStmt),
    DoWhile(DoWhileStmt),
    For(ForStmt),
    ForIn(ForInStmt),
    ForOf(ForOfStmt),
    Var(Vec<VariableDecl>),
}

#[derive(Debug, PartialEq)]
pub struct WithStmt {
    pub object: Expr,
    pub body: Box<Stmt>,
}

#[derive(Debug, PartialEq)]
pub struct LabeledStmt {
    pub label: Identifier,
    pub body: Box<Stmt>,
}

#[derive(Debug, PartialEq)]
pub struct IfStmt {
    pub test: Expr,
    pub consequent: Box<Stmt>,
    pub alternate: Option<Box<Stmt>>,
}

#[derive(Debug, PartialEq)]
pub struct SwitchStmt {
    pub discriminant: Expr,
    pub cases: Vec<SwitchCase>,
}

#[derive(Debug, PartialEq)]
pub struct SwitchCase {
    pub test: Option<Expr>,
    pub consequent: Vec<ProgramPart>,
}

pub type BlockStmt = Vec<ProgramPart>;

#[derive(Debug, PartialEq)]
pub struct TryStmt {
    pub block: BlockStmt,
    pub handler: Option<CatchClause>,
    pub finalizer: Option<BlockStmt>,
}

#[derive(Debug, PartialEq)]
pub struct CatchClause {
    pub param: Option<Pat>,
    pub body: BlockStmt,
}

#[derive(Debug, PartialEq)]
pub struct WhileStmt {
    pub test: Expr,
    pub body: Box<Stmt>,
}

#[derive(Debug, PartialEq)]
pub struct DoWhileStmt {
    pub test: Expr,
    pub body: Box<Stmt>,
}

#[derive(Debug, PartialEq)]
pub struct ForStmt {
    pub init: Option<LoopInit>,
    pub test: Option<Expr>,
    pub update: Option<Expr>,
    pub body: Box<Stmt>,
}

#[derive(Debug, PartialEq)]
pub enum LoopInit {
    Variable(VariableKind, Vec<VariableDecl>),
    Expr(Expr),
}

#[derive(Debug, PartialEq)]
pub struct ForInStmt {
    pub left: LoopLeft,
    pub right: Expr,
    pub body: Box<Stmt>,
}

#[derive(Debug, PartialEq)]
pub struct ForOfStmt {
    pub left: LoopLeft,
    pub right: Expr,
    pub body: Box<Stmt>,
    pub is_await: bool,
}

#[derive(Debug, PartialEq)]
pub enum LoopLeft {
    Expr(Expr),
    Variable(VariableKind, VariableDecl),
    Pat(Pat),
}

/// The parts of a program.
pub open spec fn parts_of(p: Program) -> Seq<ProgramPart> {
    match p {
        Program::Mod(v) => v@,
        Program::Script(v) => v@,
    }
}

/// An identifier pattern that binds `name`.
pub open spec fn pat_name_is(p: Pat, name: Seq<char>) -> bool {
    p matches Pat::Identifier(i) && i@ == name
}

} // verus!
