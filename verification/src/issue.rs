//! Diagnostics: what the typer reports instead of failing.

use vstd::prelude::*;
use crate::span::Span;
use crate::types::{FullType, FullTypeView, Type, TypeView};
use crate::views::lemma_deep_view_push;

verus! {

/// Severity of a diagnostic.
#[derive(Clone, Copy, Debug, PartialEq, Eq, Structural)]
pub enum Level {
    Warning,
    Error,
    /// The typer was handed something that a parser never produces.
    Internal,
}

/// What a diagnostic, or one of its fragments, says.
#[derive(Clone, Debug, PartialEq, Eq)]
pub enum Message {
    /// A value of one type stands where another type is expected.
    ExpectedType { expected: Type, given: Type },
    /// A call has `given` arguments where exactly `expected` are allowed.
    ExpectedArguments { expected: usize, given: usize },
    /// A call has `given` arguments where `min` to `max` are allowed.
    ExpectedArgumentsBetween { min: usize, max: usize, given: usize },
    /// Fragment: the argument at this position is one too many.
    Argument(usize),
    /// A check for `NULL` on a value that is never `NULL`.
    CannotBeNull,
    /// The arguments of `LEAST` or `GREATEST` have no common type.
    NoneMatchingInputTypes,
    /// Two operands, or the two branches of `IF`, have no common type.
    IncompatibleTypes,
    /// Fragment: the type of one of the operands.
    OfType(Type),
    /// Fragment: the type of one of the arguments of `LEAST` or `GREATEST`.
    TypeIs(Type),
    /// `VALUE` outside of `ON DUPLICATE KEY UPDATE`.
    ValueOutsideOnDuplicateKeyUpdate,
    /// The function is not known to the typer.
    FunctionNotImplemented,
    /// The construct is not supported yet.
    NotImplemented,
    /// A statement of a kind that cannot stand here.
    UnexpectedStatement,
    /// Inserting into a view is not supported yet.
    InsertIntoView,
    NoSuchColumnInSchema,
    UnknownTable,
    /// A value of this type does not fit its column.
    GotType(Type),
    /// Fragment: the type that the column has.
    Expected(Type),
    ColumnInSelectNotInInsert,
    MissingColumnInSelect,
    /// A name is bound twice in one `FROM` clause.
    DuplicateDefinitions,
    /// Fragment: where the name was bound first.
    AlreadyDefinedHere,
    /// A column name that more than one table in scope defines.
    AmbiguousReference,
    /// Fragment: one of the tables that define the name.
    DefinedHere,
    /// The assigned value does not fit the column.
    GotTypeExpected { given: FullType, expected: FullType },
    UnknownIdentifier,
    /// `*` cannot be given an alias.
    AsNotSupportedForStar,
    /// `*` in a place where it cannot be expanded.
    NotSupportedHere,
    InvalidIdentifier,
    /// Two output columns share this name.
    MultipleColumnsWithName(String),
    /// Fragment: the earlier column of the same name.
    AlsoDefinedHere,
    /// An output column that is an expression without an alias.
    UnnamedColumn,
    /// An offset or a count of `LIMIT` that is not an integer.
    ExpectedIntegerType(Type),
    IncompatibleNamesInUnion,
    /// Fragment: the name of the column at this position on one side.
    ColumnNamed(usize, String),
    /// Fragment: the column at this position has no name on one side.
    ColumnUnnamed(usize),
    IncompatibleTypesInUnion,
    /// Fragment: the type of the column at this position on one side.
    ColumnOfType(usize, Type),
    /// Fragment: the column at this position exists on one side only.
    ColumnOnlyOnThisSide(usize, Option<String>),
    /// A subquery used as a value yields more or fewer than one column.
    SubqueryColumns,
    /// A list placeholder outside of the right-hand side of `IN`.
    ListOutsideIn,
}

/// Mathematical model of a [`Message`].
pub enum MessageView {
    ExpectedType { expected: TypeView, given: TypeView },
    ExpectedArguments { expected: usize, given: usize },
    ExpectedArgumentsBetween { min: usize, max: usize, given: usize },
    Argument(usize),
    CannotBeNull,
    NoneMatchingInputTypes,
    IncompatibleTypes,
    OfType(TypeView),
    TypeIs(TypeView),
    ValueOutsideOnDuplicateKeyUpdate,
    FunctionNotImplemented,
    NotImplemented,
    UnexpectedStatement,
    InsertIntoView,
    NoSuchColumnInSchema,
    UnknownTable,
    GotType(TypeView),
    Expected(TypeView),
    ColumnInSelectNotInInsert,
    MissingColumnInSelect,
    DuplicateDefinitions,
    AlreadyDefinedHere,
    AmbiguousReference,
    DefinedHere,
    GotTypeExpected { given: FullTypeView, expected: FullTypeView },
    UnknownIdentifier,
    AsNotSupportedForStar,
    NotSupportedHere,
    InvalidIdentifier,
    MultipleColumnsWithName(Seq<char>),
    AlsoDefinedHere,
    UnnamedColumn,
    ExpectedIntegerType(TypeView),
    IncompatibleNamesInUnion,
    ColumnNamed(usize, Seq<char>),
    ColumnUnnamed(usize),
    IncompatibleTypesInUnion,
    ColumnOfType(usize, TypeView),
    ColumnOnlyOnThisSide(usize, Option<Seq<char>>),
    SubqueryColumns,
    ListOutsideIn,
}

impl View for Message {
    type V = MessageView;

    open spec fn view(&self) -> MessageView {
        match *self {
            Message::ExpectedType { expected, given } => MessageView::ExpectedType {
                expected: expected@,
                given: given@,
            },
            Message::ExpectedArguments { expected, given } => MessageView::ExpectedArguments {
                expected,
                given,
            },
            Message::ExpectedArgumentsBetween { min, max, given } => {
                MessageView::ExpectedArgumentsBetween { min, max, given }
            },
            Message::Argument(i) => MessageView::Argument(i),
            Message::CannotBeNull => MessageView::CannotBeNull,
            Message::NoneMatchingInputTypes => MessageView::NoneMatchingInputTypes,
            Message::IncompatibleTypes => MessageView::IncompatibleTypes,
            Message::OfType(t) => MessageView::OfType(t@),
            Message::TypeIs(t) => MessageView::TypeIs(t@),
            Message::ValueOutsideOnDuplicateKeyUpdate => {
                MessageView::ValueOutsideOnDuplicateKeyUpdate
            },
            Message::FunctionNotImplemented => MessageView::FunctionNotImplemented,
            Message::NotImplemented => MessageView::NotImplemented,
            Message::UnexpectedStatement => MessageView::UnexpectedStatement,
            Message::InsertIntoView => MessageView::InsertIntoView,
            Message::NoSuchColumnInSchema => MessageView::NoSuchColumnInSchema,
            Message::UnknownTable => MessageView::UnknownTable,
            Message::GotType(t) => MessageView::GotType(t@),
            Message::Expected(t) => MessageView::Expected(t@),
            Message::ColumnInSelectNotInInsert => MessageView::ColumnInSelectNotInInsert,
            Message::MissingColumnInSelect => MessageView::MissingColumnInSelect,
            Message::DuplicateDefinitions => MessageView::DuplicateDefinitions,
            Message::AlreadyDefinedHere => MessageView::AlreadyDefinedHere,
            Message::AmbiguousReference => MessageView::AmbiguousReference,
            Message::DefinedHere => MessageView::DefinedHere,
            Message::GotTypeExpected { given, expected } => MessageView::GotTypeExpected {
                given: given@,
                expected: expected@,
            },
            Message::UnknownIdentifier => MessageView::UnknownIdentifier,
            Message::AsNotSupportedForStar => MessageView::AsNotSupportedForStar,
            Message::NotSupportedHere => MessageView::NotSupportedHere,
            Message::InvalidIdentifier => MessageView::InvalidIdentifier,
            Message::MultipleColumnsWithName(n) => MessageView::MultipleColumnsWithName(n@),
            Message::AlsoDefinedHere => MessageView::AlsoDefinedHere,
            Message::UnnamedColumn => MessageView::UnnamedColumn,
            Message::ExpectedIntegerType(t) => MessageView::ExpectedIntegerType(t@),
            Message::IncompatibleNamesInUnion => MessageView::IncompatibleNamesInUnion,
            Message::ColumnNamed(i, n) => MessageView::ColumnNamed(i, n@),
            Message::ColumnUnnamed(i) => MessageView::ColumnUnnamed(i),
            Message::IncompatibleTypesInUnion => MessageView::IncompatibleTypesInUnion,
            Message::ColumnOfType(i, t) => MessageView::ColumnOfType(i, t@),
            Message::ColumnOnlyOnThisSide(i, n) => MessageView::ColumnOnlyOnThisSide(
                i,
                n.deep_view(),
            ),
            Message::SubqueryColumns => MessageView::SubqueryColumns,
            Message::ListOutsideIn => MessageView::ListOutsideIn,
        }
    }
}

impl DeepView for Message {
    type V = MessageView;

    open spec fn deep_view(&self) -> MessageView {
        self@
    }
}

/// A secondary location of a diagnostic, with what is to be said of it.
#[derive(Clone, Debug, PartialEq, Eq)]
pub struct Fragment {
    pub message: Message,
    pub span: Span,
}

/// Mathematical model of a [`Fragment`].
pub struct FragmentView {
    pub message: MessageView,
    pub span: Span,
}

impl View for Fragment {
    type V = FragmentView;

    open spec fn view(&self) -> FragmentView {
        FragmentView { message: self.message@, span: self.span }
    }
}

impl DeepView for Fragment {
    type V = FragmentView;

    open spec fn deep_view(&self) -> FragmentView {
        self@
    }
}

/// A diagnostic: a severity, a message at a primary location, and any number
/// of fragments at secondary locations.
#[derive(Clone, Debug, PartialEq, Eq)]
pub struct Issue {
    pub level: Level,
    pub message: Message,
    pub span: Span,
    pub fragments: Vec<Fragment>,
}

/// Mathematical model of an [`Issue`].
pub struct IssueView {
    pub level: Level,
    pub message: MessageView,
    pub span: Span,
    pub fragments: Seq<FragmentView>,
}

impl IssueView {
    pub open spec fn err(message: MessageView, span: Span) -> IssueView {
        IssueView { level: Level::Error, message, span, fragments: Seq::empty() }
    }

    pub open spec fn warn(message: MessageView, span: Span) -> IssueView {
        IssueView { level: Level::Warning, message, span, fragments: Seq::empty() }
    }

    pub open spec fn todo(span: Span) -> IssueView {
        IssueView::err(MessageView::NotImplemented, span)
    }

    pub open spec fn ice(span: Span) -> IssueView {
        IssueView {
            level: Level::Internal,
            message: MessageView::UnexpectedStatement,
            span,
            fragments: Seq::empty(),
        }
    }

    pub open spec fn frag(self, message: MessageView, span: Span) -> IssueView {
        IssueView { fragments: self.fragments.push(FragmentView { message, span }), ..self }
    }
}

impl View for Issue {
    type V = IssueView;

    open spec fn view(&self) -> IssueView {
        IssueView {
            level: self.level,
            message: self.message@,
            span: self.span,
            fragments: self.fragments.deep_view(),
        }
    }
}

impl DeepView for Issue {
    type V = IssueView;

    open spec fn deep_view(&self) -> IssueView {
        self@
    }
}

impl Issue {
    /// An error without fragments.
    pub fn err(message: Message, span: Span) -> (r: Issue)
        ensures
            r@ == IssueView::err(message@, span),
    {
        let r = Issue { level: Level::Error, message, span, fragments: Vec::new() };
        assert(r.fragments.deep_view() =~= Seq::empty());
        r
    }

    /// A warning without fragments.
    pub fn warn(message: Message, span: Span) -> (r: Issue)
        ensures
            r@ == IssueView::warn(message@, span),
    {
        let r = Issue { level: Level::Warning, message, span, fragments: Vec::new() };
        assert(r.fragments.deep_view() =~= Seq::empty());
        r
    }

    /// The error that reports a construct as not supported yet.
    pub fn todo(span: Span) -> (r: Issue)
        ensures
            r@ == IssueView::todo(span),
    {
        Issue::err(Message::NotImplemented, span)
    }

    /// The internal diagnostic for a statement of a kind that cannot stand
    /// where it was found.
    pub fn ice(span: Span) -> (r: Issue)
        ensures
            r@ == IssueView::ice(span),
    {
        let r = Issue {
            level: Level::Internal,
            message: Message::UnexpectedStatement,
            span,
            fragments: Vec::new(),
        };
        assert(r.fragments.deep_view() =~= Seq::empty());
        r
    }

    /// The diagnostic with one more fragment at its end.
    pub fn frag(self, message: Message, span: Span) -> (r: Issue)
        ensures
            r@ == self@.frag(message@, span),
    {
        let mut r = self;
        let ghost before = r.fragments;
        let fragment = Fragment { message, span };
        r.fragments.push(fragment);
        proof {
            lemma_deep_view_push(before, r.fragments, fragment);
        }
        r
    }
}

} // verus!
