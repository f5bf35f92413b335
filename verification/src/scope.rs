//! Looking up columns in the references that are in scope.

use vstd::prelude::*;
use crate::ast::Identifier;
use crate::issue::{FragmentView, Issue, IssueView, Level, Message, MessageView};
use crate::span::Span;
use crate::typer::{ReferenceTypeView, Typed, Typer, lemma_apply_none};
use crate::types::{FullType, FullTypeView};
use crate::views::lemma_deep_view_push;

verus! {

/// One definition of a column: where the reference that defines it was
/// introduced, and the column's type.
#[derive(Clone, Debug, PartialEq, Eq)]
pub struct ColumnDef {
    pub span: Span,
    pub t: FullType,
}

/// Mathematical model of a [`ColumnDef`].
pub struct ColumnDefView {
    pub span: Span,
    pub t: FullTypeView,
}

impl View for ColumnDef {
    type V = ColumnDefView;

    open spec fn view(&self) -> ColumnDefView {
        ColumnDefView { span: self.span, t: self.t@ }
    }
}

impl DeepView for ColumnDef {
    type V = ColumnDefView;

    open spec fn deep_view(&self) -> ColumnDefView {
        self@
    }
}

/// The definitions of `name` among the first `m` columns of `r`, in order.
pub open spec fn reference_defs(r: ReferenceTypeView, name: Seq<char>, m: nat) -> Seq<ColumnDefView>
    decreases m,
{
    if m == 0 || m > r.columns.len() {
        Seq::empty()
    } else if r.columns[m - 1].0 == name {
        reference_defs(r, name, (m - 1) as nat).push(
            ColumnDefView { span: r.span, t: r.columns[m - 1].1 },
        )
    } else {
        reference_defs(r, name, (m - 1) as nat)
    }
}

/// Whether the reference `r` is one that `table` selects: every reference
/// where no table is given, else those of that name.
pub open spec fn selects(table: Option<Seq<char>>, r: ReferenceTypeView) -> bool {
    match table {
        Some(t) => r.name == Some(t),
        None => true,
    }
}

/// The definitions of the column `name` in the first `n` references of
/// `refs` that `table` selects, in the order of the references and then of
/// their columns.
pub open spec fn column_defs(
    refs: Seq<ReferenceTypeView>,
    table: Option<Seq<char>>,
    name: Seq<char>,
    n: nat,
) -> Seq<ColumnDefView>
    decreases n,
{
    if n == 0 || n > refs.len() {
        Seq::empty()
    } else if selects(table, refs[n - 1]) {
        column_defs(refs, table, name, (n - 1) as nat) + reference_defs(
            refs[n - 1],
            name,
            refs[n - 1].columns.len(),
        )
    } else {
        column_defs(refs, table, name, (n - 1) as nat)
    }
}

/// The last of the first `n` references that is named `table`.
pub open spec fn reference_named(refs: Seq<ReferenceTypeView>, table: Seq<char>, n: nat) -> Option<
    ReferenceTypeView,
>
    decreases n,
{
    if n == 0 || n > refs.len() {
        None
    } else if refs[n - 1].name == Some(table) {
        Some(refs[n - 1])
    } else {
        reference_named(refs, table, (n - 1) as nat)
    }
}

/// The error for a column name that several references define, with one
/// fragment for each definition.
pub open spec fn ambiguous_reference(span: Span, defs: Seq<ColumnDefView>) -> IssueView {
    IssueView {
        level: Level::Error,
        message: MessageView::AmbiguousReference,
        span,
        fragments: Seq::new(
            defs.len(),
            |i: int| FragmentView { message: MessageView::DefinedHere, span: defs[i].span },
        ),
    }
}

/// The type of the column `col`, looked up in all references, or in those
/// named `table` where one is given.
///
/// A column that nothing defines is an error. Without a table, so is one
/// that has more than one definition. With a table, the last definition
/// counts.
pub open spec fn lookup_column(
    refs: Seq<ReferenceTypeView>,
    table: Option<Seq<char>>,
    col: Identifier,
) -> Typed {
    let defs = column_defs(refs, table, col.value@, refs.len());
    if defs.len() == 0 {
        Typed::failed(IssueView::err(MessageView::UnknownIdentifier, col.span))
    } else if table is None && defs.len() > 1 {
        Typed::failed(ambiguous_reference(col.span, defs))
    } else {
        Typed::pure(defs.last().t)
    }
}

/// Looking up a column raises at most one diagnostic. It raises none
/// exactly where the column is found: without a table, where exactly one
/// reference in scope defines it, and with a table, where a reference of
/// that name does. A column that several references define is reported
/// with one fragment for each definition.
pub proof fn lemma_lookup_column(
    refs: Seq<ReferenceTypeView>,
    table: Option<Seq<char>>,
    col: Identifier,
)
    ensures
        ({
            let defs = column_defs(refs, table, col.value@, refs.len());
            let found = lookup_column(refs, table, col);
            &&& found.effects.constraints.len() == 0
            &&& found.effects.issues.len() <= 1
            &&& found.effects.issues.len() == 0 <==> (defs.len() == 1 || (table is Some
                && defs.len() > 1))
            &&& found.effects.issues.len() == 1 ==> found.t == FullTypeView::invalid()
                && found.effects.issues[0].span == col.span
            &&& table is None && defs.len() > 1 ==> found.effects.issues[0].message
                == MessageView::AmbiguousReference && found.effects.issues[0].fragments.len()
                == defs.len()
            &&& defs.len() == 0 ==> found.effects.issues[0] == IssueView::err(
                MessageView::UnknownIdentifier,
                col.span,
            )
        }),
{
}

/// Whether an optional name is the given name.
pub fn name_is(name: &Option<String>, other: &String) -> (r: bool)
    ensures
        r == (name.deep_view() == Some(other@)),
{
    match name {
        Some(n) => *n == *other,
        None => false,
    }
}

/// Whether two optional names are the same.
pub fn same_name(a: &Option<String>, b: &Option<String>) -> (r: bool)
    ensures
        r == (a.deep_view() == b.deep_view()),
{
    match (a, b) {
        (Some(x), Some(y)) => *x == *y,
        (None, None) => true,
        _ => false,
    }
}

/// A copy of an optional name.
pub fn clone_name(a: &Option<String>) -> (r: Option<String>)
    ensures
        r.deep_view() == a.deep_view(),
{
    match a {
        Some(x) => Some(x.clone()),
        None => None,
    }
}

/// The error for a column name that several references define.
pub fn ambiguous_issue(span: Span, defs: &Vec<ColumnDef>) -> (r: Issue)
    ensures
        r@ == ambiguous_reference(span, defs.deep_view()),
{
    let mut issue = Issue::err(Message::AmbiguousReference, span);
    let mut i: usize = 0;
    while i < defs.len()
        invariant
            i <= defs@.len(),
            issue@.level == Level::Error,
            issue@.message == MessageView::AmbiguousReference,
            issue@.span == span,
            issue@.fragments == ambiguous_reference(span, defs.deep_view()).fragments.take(i as int),
        decreases defs@.len() - i,
    {
        issue = issue.frag(Message::DefinedHere, defs[i].span);
        assert(issue@.fragments =~= ambiguous_reference(span, defs.deep_view()).fragments.take(
            i + 1,
        ));
        i += 1;
    }
    assert(issue@.fragments =~= ambiguous_reference(span, defs.deep_view()).fragments);
    issue
}

impl<'a> Typer<'a> {
    /// The definitions of the column `name` in the references in scope that
    /// `table` selects.
    pub fn column_defs(&self, table: Option<&String>, name: &String) -> (r: Vec<ColumnDef>)
        ensures
            r.deep_view() == column_defs(
                self@.reference_types,
                match table {
                    Some(t) => Some(t@),
                    None => None,
                },
                name@,
                self@.reference_types.len(),
            ),
    {
        let ghost tv: Option<Seq<char>> = match table {
            Some(t) => Some(t@),
            None => None,
        };
        let ghost refs = self@.reference_types;
        let mut defs: Vec<ColumnDef> = Vec::new();
        let mut i: usize = 0;
        assert(defs.deep_view() =~= Seq::empty());
        while i < self.reference_types.len()
            invariant
                i <= self.reference_types@.len(),
                refs == self@.reference_types,
                tv == match table {
                    Some(t) => Some(t@),
                    None => None,
                },
                defs.deep_view() == column_defs(refs, tv, name@, i as nat),
            decreases self.reference_types@.len() - i,
        {
            let r = &self.reference_types[i];
            assert(r@ == refs[i as int]);
            let selected = match table {
                Some(t) => name_is(&r.name, t),
                None => true,
            };
            if selected {
                let ghost before = defs.deep_view();
                let mut j: usize = 0;
                assert(before + reference_defs(r@, name@, 0) =~= before);
                while j < r.columns.len()
                    invariant
                        j <= r.columns@.len(),
                        defs.deep_view() == before + reference_defs(r@, name@, j as nat),
                    decreases r.columns@.len() - j,
                {
                    assert(r@.columns[j as int] == r.columns@[j as int].deep_view());
                    if r.columns[j].0 == *name {
                        let ghost prev = defs;
                        let def = ColumnDef { span: r.span, t: r.columns[j].1.ref_clone() };
                        defs.push(def);
                        proof {
                            lemma_deep_view_push(prev, defs, def);
                            assert(defs.deep_view() =~= before + reference_defs(
                                r@,
                                name@,
                                (j + 1) as nat,
                            ));
                        }
                    }
                    j += 1;
                }
            }
            i += 1;
        }
        defs
    }

    /// The type of the column `col`, looked up in all references in scope,
    /// or in those named `table` where one is given. A column that cannot
    /// be resolved is reported and gets the error marker.
    pub fn lookup_column(&mut self, table: Option<&String>, col: &Identifier) -> (r: FullType)
        ensures
            final(self)@ == old(self)@.apply(
                lookup_column(old(self)@.reference_types, table.deep_view(), *col).effects,
            ),
            r@ == lookup_column(old(self)@.reference_types, table.deep_view(), *col).t,
    {
        let defs = self.column_defs(table, &col.value);
        if defs.len() == 0 {
            self.add_issue(Issue::err(Message::UnknownIdentifier, col.span));
            FullType::invalid()
        } else if table.is_none() && defs.len() > 1 {
            self.add_issue(ambiguous_issue(col.span, &defs));
            FullType::invalid()
        } else {
            proof {
                lemma_apply_none(old(self)@);
            }
            defs[defs.len() - 1].t.ref_clone()
        }
    }
}

} // verus!
