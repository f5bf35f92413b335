//! The syntax tree of the statements that can be typed.
//!
//! Every node carries the span of the text it was parsed from, so that a
//! diagnostic can point at it.

use vstd::prelude::*;
use crate::span::Span;

verus! {

/// A name as it is written in the statement.
#[derive(Clone, Debug)]
pub struct Identifier {
    pub value: String,
    pub span: Span,
}

/// One part of a dotted identifier.
#[derive(Clone, Debug)]
pub enum IdentifierPart {
    Name(Identifier),
    /// `*`
    Star(Span),
}

/// The built-in functions that the typer knows, and `Other` for the rest.
#[derive(Clone, Copy, Debug, PartialEq, Eq, Structural)]
pub enum Function {
    CharacterLength,
    Concat,
    CurDate,
    CurrentTimestamp,
    DateFormat,
    ExtractValue,
    FindInSet,
    FromUnixTime,
    Greatest,
    If,
    IfNull,
    JsonExtract,
    JsonReplace,
    JsonSet,
    JsonUnquote,
    JsonValue,
    Least,
    Left,
    Max,
    Min,
    Now,
    Rand,
    Replace,
    Right,
    SubStr,
    SubStringIndex,
    Sum,
    UnixTimestamp,
    Value,
    Other,
}

#[derive(Clone, Copy, Debug, PartialEq, Eq, Structural)]
pub enum BinaryOperator {
    Or,
    Xor,
    And,
    Eq,
    NullSafeEq,
    GtEq,
    Gt,
    LtEq,
    Lt,
    Neq,
    ShiftLeft,
    ShiftRight,
    BitAnd,
    BitOr,
    BitXor,
    Add,
    Subtract,
    Divide,
    Div,
    Mod,
    Mult,
    Like,
    NotLike,
}

#[derive(Clone, Copy, Debug, PartialEq, Eq, Structural)]
pub enum UnaryOperator {
    Binary,
    Collate,
    LogicalNot,
    Minus,
    Not,
}

/// What an `IS` expression tests for.
#[derive(Clone, Copy, Debug, PartialEq, Eq, Structural)]
pub enum Is {
    Null,
    NotNull,
    True,
    NotTrue,
    False,
    NotFalse,
    Unknown,
    NotUnknown,
}

#[derive(Debug)]
pub enum Expression {
    Binary { op: BinaryOperator, lhs: Box<Expression>, rhs: Box<Expression>, span: Span },
    Unary { op: UnaryOperator, operand: Box<Expression>, span: Span },
    /// A query in parentheses that is used as a value.
    Subquery(Box<Statement>),
    Null(Span),
    Bool(bool, Span),
    String(String, Span),
    Integer(u64, Span),
    Float(Span),
    /// A placeholder for a list of values; allowed on the right of `IN` only.
    ListHack(usize, Span),
    /// A call of a built-in function; the span is that of the whole call.
    Function(Function, Vec<Expression>, Span),
    /// A dotted identifier; the span is that of all its parts.
    Identifier(Vec<IdentifierPart>, Span),
    /// A placeholder, with its position among the placeholders.
    Arg(usize, Span),
    Exists(Box<Statement>, Span),
    In { lhs: Box<Expression>, rhs: Vec<Expression>, span: Span },
    Is(Box<Expression>, Is, Span),
    /// What the parser could not make sense of and has reported.
    Invalid(Span),
    /// An expression of a kind that the typer does not support yet.
    Unsupported(Span),
}

/// One item of a select list.
#[derive(Debug)]
pub struct SelectExpr {
    pub expr: Expression,
    pub as_: Option<Identifier>,
}

#[derive(Clone, Copy, Debug, PartialEq, Eq, Structural)]
pub enum SelectFlag {
    All(Span),
    Distinct(Span),
    DistinctRow(Span),
    HighPriority(Span),
    StraightJoin(Span),
    SqlSmallResult(Span),
    SqlBigResult(Span),
    SqlBufferResult(Span),
    SqlNoCache(Span),
    SqlCalcFoundRows(Span),
}

#[derive(Clone, Copy, Debug, PartialEq, Eq, Structural)]
pub enum JoinType {
    Inner,
    Cross,
    Normal,
    Straight,
    Left,
    Right,
    Natural,
    NaturalInner,
    NaturalLeft,
    NaturalRight,
}

/// An entry of a `FROM` clause.
#[derive(Debug)]
pub enum TableReference {
    /// A table or view of the catalog, possibly under an alias.
    Table { identifier: Identifier, as_: Option<Identifier> },
    /// A query in parentheses, possibly under an alias.
    Query { query: Box<Statement>, as_: Option<Identifier> },
    Join {
        join: JoinType,
        left: Box<TableReference>,
        right: Box<TableReference>,
        on: Option<Expression>,
    },
    /// A reference of a kind that the typer does not support yet.
    Unsupported(Span),
}

#[derive(Debug)]
pub struct Limit {
    pub offset: Option<Expression>,
    pub count: Expression,
}

#[derive(Debug)]
pub struct Select {
    pub span: Span,
    pub flags: Vec<SelectFlag>,
    pub select_exprs: Vec<SelectExpr>,
    pub table_references: Option<Vec<TableReference>>,
    pub where_: Option<Expression>,
    pub group_by: Option<Vec<Expression>>,
    pub order_by: Option<Vec<Expression>>,
    pub limit: Option<Limit>,
}

/// One further branch of a union.
#[derive(Debug)]
pub struct UnionWith {
    /// Span of the keyword that joins the branch to what is on its left.
    pub union_span: Span,
    pub union_statement: Box<Statement>,
}

#[derive(Debug)]
pub struct Union {
    pub span: Span,
    pub left: Box<Statement>,
    pub with: Vec<UnionWith>,
    pub order_by: Option<Vec<Expression>>,
    pub limit: Option<Limit>,
}

/// A statement that can stand where a query is expected.
#[derive(Debug)]
pub enum Statement {
    Select(Select),
    Union(Union),
    /// Any other kind of statement.
    Other(Span),
}

#[derive(Clone, Copy, Debug, PartialEq, Eq, Structural)]
pub enum InsertReplaceType {
    Insert(Span),
    Replace(Span),
}

#[derive(Clone, Copy, Debug, PartialEq, Eq, Structural)]
pub enum InsertReplaceFlag {
    LowPriority(Span),
    HighPriority(Span),
    Delayed(Span),
    Ignore(Span),
}

/// An assignment `column = value`.
#[derive(Debug)]
pub struct SetPair {
    pub column: Identifier,
    pub value: Expression,
}

#[derive(Debug)]
pub enum OnConflictTarget {
    Columns(Vec<Identifier>),
    OnConstraint(Span),
    Unspecified,
}

#[derive(Debug)]
pub enum OnConflictAction {
    DoNothing(Span),
    DoUpdateSet { sets: Vec<SetPair>, where_: Option<Expression> },
}

#[derive(Debug)]
pub struct OnConflict {
    pub target: OnConflictTarget,
    pub action: OnConflictAction,
}

/// The projection of a `RETURNING` clause, with the span of its keyword.
#[derive(Debug)]
pub struct Returning {
    pub span: Span,
    pub exprs: Vec<SelectExpr>,
}

#[derive(Debug)]
pub struct InsertReplace {
    pub type_: InsertReplaceType,
    pub flags: Vec<InsertReplaceFlag>,
    /// The table that rows are written to.
    pub table: Identifier,
    /// Qualifiers in front of the table's name.
    pub table_prefix: Vec<Identifier>,
    pub columns: Vec<Identifier>,
    /// The rows of a `VALUES` clause.
    pub values: Option<Vec<Vec<Expression>>>,
    pub select: Option<Select>,
    pub set: Option<Vec<SetPair>>,
    pub on_duplicate_key_update: Option<Vec<SetPair>>,
    pub on_conflict: Option<OnConflict>,
    pub returning: Option<Returning>,
}

impl Statement {
    pub open spec fn spec_span(self) -> Span {
        match self {
            Statement::Select(s) => s.span,
            Statement::Union(u) => u.span,
            Statement::Other(s) => s,
        }
    }

    /// The span of the whole statement.
    pub fn span(&self) -> (r: Span)
        ensures
            r == self.spec_span(),
    {
        match self {
            Statement::Select(s) => s.span,
            Statement::Union(u) => u.span,
            Statement::Other(s) => *s,
        }
    }
}

impl Expression {
    pub open spec fn spec_span(self) -> Span {
        match self {
            Expression::Binary { span, .. } => span,
            Expression::Unary { span, .. } => span,
            Expression::Subquery(s) => s.spec_span(),
            Expression::Null(span) => span,
            Expression::Bool(_, span) => span,
            Expression::String(_, span) => span,
            Expression::Integer(_, span) => span,
            Expression::Float(span) => span,
            Expression::ListHack(_, span) => span,
            Expression::Function(_, _, span) => span,
            Expression::Identifier(_, span) => span,
            Expression::Arg(_, span) => span,
            Expression::Exists(_, span) => span,
            Expression::In { span, .. } => span,
            Expression::Is(_, _, span) => span,
            Expression::Invalid(span) => span,
            Expression::Unsupported(span) => span,
        }
    }

    /// The span of the whole expression.
    pub fn span(&self) -> (r: Span)
        ensures
            r == self.spec_span(),
    {
        match self {
            Expression::Binary { span, .. } => *span,
            Expression::Unary { span, .. } => *span,
            Expression::Subquery(s) => s.span(),
            Expression::Null(span) => *span,
            Expression::Bool(_, span) => *span,
            Expression::String(_, span) => *span,
            Expression::Integer(_, span) => *span,
            Expression::Float(span) => *span,
            Expression::ListHack(_, span) => *span,
            Expression::Function(_, _, span) => *span,
            Expression::Identifier(_, span) => *span,
            Expression::Arg(_, span) => *span,
            Expression::Exists(_, span) => *span,
            Expression::In { span, .. } => *span,
            Expression::Is(_, _, span) => *span,
            Expression::Invalid(span) => *span,
            Expression::Unsupported(span) => *span,
        }
    }
}

impl SelectExpr {
    pub open spec fn spec_span(self) -> Span {
        match self.as_ {
            Some(a) => self.expr.spec_span().spec_join(a.span),
            None => self.expr.spec_span(),
        }
    }

    /// The span of the expression and its alias.
    pub fn span(&self) -> (r: Span)
        ensures
            r == self.spec_span(),
    {
        match &self.as_ {
            Some(a) => self.expr.span().join(a.span),
            None => self.expr.span(),
        }
    }
}

impl SelectFlag {
    pub open spec fn spec_span(self) -> Span {
        match self {
            SelectFlag::All(s) => s,
            SelectFlag::Distinct(s) => s,
            SelectFlag::DistinctRow(s) => s,
            SelectFlag::HighPriority(s) => s,
            SelectFlag::StraightJoin(s) => s,
            SelectFlag::SqlSmallResult(s) => s,
            SelectFlag::SqlBigResult(s) => s,
            SelectFlag::SqlBufferResult(s) => s,
            SelectFlag::SqlNoCache(s) => s,
            SelectFlag::SqlCalcFoundRows(s) => s,
        }
    }

    pub fn span(&self) -> (r: Span)
        ensures
            r == self.spec_span(),
    {
        match self {
            SelectFlag::All(s) => *s,
            SelectFlag::Distinct(s) => *s,
            SelectFlag::DistinctRow(s) => *s,
            SelectFlag::HighPriority(s) => *s,
            SelectFlag::StraightJoin(s) => *s,
            SelectFlag::SqlSmallResult(s) => *s,
            SelectFlag::SqlBigResult(s) => *s,
            SelectFlag::SqlBufferResult(s) => *s,
            SelectFlag::SqlNoCache(s) => *s,
            SelectFlag::SqlCalcFoundRows(s) => *s,
        }
    }
}

} // verus!
