//! Typing of `SELECT` statements and unions.

use vstd::prelude::*;
use crate::ast::{
    Expression, Identifier, IdentifierPart, Limit, Select, SelectExpr, SelectFlag, Statement, Union,
    UnionWith,
};
use crate::issue::{Issue, IssueView, Message, MessageView};
use crate::scope::{clone_name, lookup_column, name_is, reference_named, same_name};
use crate::span::{Span, hull_or, span_hull};
use crate::type_expression::{ExpressionFlags, expression_type, no_flags, type_expression};
use crate::type_function::{args_types, typed_args};
use crate::type_reference::{
    condition_effects, from_type, named_columns, named_columns_of, push_reference, type_condition,
    type_from,
};
use crate::typer::{
    Effects, Env, ReferenceType, ReferenceTypeView, Typer, clone_references, lemma_advance,
    lemma_advance_in, lemma_apply_none, unify, unify_effects,
};
use crate::types::{BaseType, FullType, FullTypeView, Type, TypeView};
use crate::views::{lemma_deep_view_drop_last, lemma_deep_view_push, lemma_deep_view_update};

verus! {

/// A column of the result of a query.
#[derive(Clone, Debug, PartialEq, Eq)]
pub struct SelectTypeColumn {
    /// The name of the column; an expression without alias has none.
    pub name: Option<String>,
    pub type_: FullType,
    pub span: Span,
}

/// Mathematical model of a [`SelectTypeColumn`].
pub struct SelectTypeColumnView {
    pub name: Option<Seq<char>>,
    pub type_: FullTypeView,
    pub span: Span,
}

impl View for SelectTypeColumn {
    type V = SelectTypeColumnView;

    open spec fn view(&self) -> SelectTypeColumnView {
        SelectTypeColumnView { name: self.name.deep_view(), type_: self.type_@, span: self.span }
    }
}

impl DeepView for SelectTypeColumn {
    type V = SelectTypeColumnView;

    open spec fn deep_view(&self) -> SelectTypeColumnView {
        self@
    }
}

/// The columns of the result of a query, in order.
#[derive(Clone, Debug, PartialEq, Eq)]
pub struct SelectType {
    pub columns: Vec<SelectTypeColumn>,
    /// The span of the statement or clause that yields the columns.
    pub select_span: Span,
}

/// Mathematical model of a [`SelectType`].
pub struct SelectTypeView {
    pub columns: Seq<SelectTypeColumnView>,
    pub select_span: Span,
}

impl View for SelectType {
    type V = SelectTypeView;

    open spec fn view(&self) -> SelectTypeView {
        SelectTypeView { columns: self.columns.deep_view(), select_span: self.select_span }
    }
}

impl SelectTypeColumn {
    pub fn span(&self) -> (r: Span)
        ensures
            r == self.span,
    {
        self.span
    }
}

impl SelectType {
    /// The smallest span that contains the spans of all columns, or the
    /// span of the clause that yields them where there is no column.
    pub fn span(&self) -> (r: Span)
        ensures
            r == hull_or_else(column_spans(self@.columns), self.select_span),
    {
        let spans = spans_of_columns(&self.columns);
        hull_or(&spans, self.select_span)
    }
}

impl DeepView for SelectType {
    type V = SelectTypeView;

    open spec fn deep_view(&self) -> SelectTypeView {
        self@
    }
}

/// What typing a query yields: its effects on the context and its columns.
pub struct TypedSelect {
    pub effects: Effects,
    pub t: SelectTypeView,
}

/// A column that a select item yields, before it is added to the result.
pub struct KleeneColumnView {
    pub name: Option<Seq<char>>,
    pub type_: FullTypeView,
    pub span: Span,
    /// Whether the name is an alias that the item gives.
    pub aliased: bool,
}

/// What resolving a select item yields: its effects on the context, and
/// the columns that it stands for.
pub struct Kleene {
    pub effects: Effects,
    pub columns: Seq<KleeneColumnView>,
}

/// The columns of the reference `r`, as output columns at `span`.
pub open spec fn reference_columns(r: ReferenceTypeView, span: Span) -> Seq<KleeneColumnView> {
    Seq::new(
        r.columns.len(),
        |j: int|
            KleeneColumnView {
                name: Some(r.columns[j].0),
                type_: r.columns[j].1,
                span,
                aliased: false,
            },
    )
}

/// The columns of the first `n` references, in the order of the references
/// and then of their columns, as output columns at `span`.
pub open spec fn all_columns(
    refs: Seq<ReferenceTypeView>,
    span: Span,
    n: nat,
) -> Seq<KleeneColumnView>
    decreases n,
{
    if n == 0 || n > refs.len() {
        Seq::empty()
    } else {
        all_columns(refs, span, (n - 1) as nat) + reference_columns(refs[n - 1], span)
    }
}

/// The one column that a select item yields which names a single column.
pub open spec fn named_column(
    refs: Seq<ReferenceTypeView>,
    table: Option<Seq<char>>,
    col: Identifier,
    as_: Option<Identifier>,
) -> Kleene {
    let found = lookup_column(refs, table, col);
    let name = match as_ {
        Some(a) => a,
        None => col,
    };
    Kleene {
        effects: found.effects,
        columns: seq![
            KleeneColumnView {
                name: Some(name.value@),
                type_: found.t,
                span: name.span,
                aliased: as_ is Some,
            },
        ],
    }
}

/// The error for an alias behind `*`, where there is one.
pub open spec fn star_alias_effects(as_: Option<Identifier>) -> Effects {
    match as_ {
        Some(a) => Effects::issue(IssueView::err(MessageView::AsNotSupportedForStar, a.span)),
        None => Effects::none(),
    }
}

/// Resolves a select item that is an identifier, which may stand for any
/// number of columns.
///
/// A single name is looked up in all references in scope, and `table.name`
/// in those of that name; either yields one column, which has the error
/// marker for its type where the lookup fails. `*` yields every column of
/// every reference in scope, and `table.*` every column of that reference.
/// Neither can have an alias. Any other shape is an error.
pub open spec fn kleene_identifier(
    refs: Seq<ReferenceTypeView>,
    parts: Seq<IdentifierPart>,
    span: Span,
    as_: Option<Identifier>,
) -> Kleene {
    if parts.len() == 1 {
        match parts[0] {
            IdentifierPart::Name(col) => named_column(refs, None, col, as_),
            IdentifierPart::Star(v) => Kleene {
                effects: star_alias_effects(as_),
                columns: all_columns(refs, v, refs.len()),
            },
        }
    } else if parts.len() == 2 {
        match (parts[0], parts[1]) {
            (IdentifierPart::Name(table), IdentifierPart::Name(col)) => named_column(
                refs,
                Some(table.value@),
                col,
                as_,
            ),
            (IdentifierPart::Name(table), IdentifierPart::Star(v)) => match reference_named(
                refs,
                table.value@,
                refs.len(),
            ) {
                Some(r) => Kleene {
                    effects: star_alias_effects(as_),
                    columns: reference_columns(r, v),
                },
                None => Kleene {
                    effects: star_alias_effects(as_).chain(
                        Effects::issue(IssueView::err(MessageView::UnknownTable, table.span)),
                    ),
                    columns: Seq::empty(),
                },
            },
            (IdentifierPart::Star(v), _) => Kleene {
                effects: Effects::issue(IssueView::err(MessageView::NotSupportedHere, v)),
                columns: Seq::empty(),
            },
        }
    } else {
        Kleene {
            effects: Effects::issue(IssueView::err(MessageView::InvalidIdentifier, span)),
            columns: Seq::empty(),
        }
    }
}

/// With one table in scope, `*` stands for the columns of the table, in the
/// order of their declaration and with their names and types, and raises
/// nothing.
pub proof fn lemma_star_of_table(table: ReferenceTypeView, star: Span, span: Span)
    ensures
        ({
            let found = kleene_identifier(seq![table], seq![IdentifierPart::Star(star)], span, None);
            &&& found.effects == Effects::none()
            &&& found.columns.len() == table.columns.len()
            &&& forall|i: int|
                0 <= i < table.columns.len() ==> (#[trigger] found.columns[i]).name == Some(
                    table.columns[i].0,
                ) && found.columns[i].type_ == table.columns[i].1
        }),
{
    let refs = seq![table];
    assert(all_columns(refs, star, 0) =~= Seq::empty());
    assert(all_columns(refs, star, 1) =~= reference_columns(table, star)) by {
        assert(all_columns(refs, star, 1) == all_columns(refs, star, 0) + reference_columns(
            refs[0],
            star,
        ));
    }
}

/// Resolves one select item. An identifier is resolved as
/// [`kleene_identifier`] says. Any other expression is typed and yields one
/// column, named by its alias; without an alias it has no name, which is
/// worth a warning.
pub open spec fn select_item(env: Env, item: SelectExpr) -> Kleene
    decreases item, 0nat,
{
    match item.expr {
        Expression::Identifier(parts, span) => kleene_identifier(
            env.references,
            parts@,
            span,
            item.as_,
        ),
        _ => {
            let typed = expression_type(env, item.expr, no_flags(), BaseType::Any);
            Kleene {
                effects: typed.effects.chain_issue_if(
                    item.as_ is None,
                    IssueView::warn(MessageView::UnnamedColumn, item.expr.spec_span()),
                ),
                columns: seq![expression_column(typed.t, item.as_)],
            }
        },
    }
}

/// The column that a select item yields which is an expression of type
/// `type_`. It is named by its alias, and has the span of the alias;
/// without one it has no name and an empty span.
pub open spec fn expression_column(
    type_: FullTypeView,
    as_: Option<Identifier>,
) -> KleeneColumnView {
    match as_ {
        Some(a) => KleeneColumnView { name: Some(a.value@), type_, span: a.span, aliased: true },
        None => KleeneColumnView {
            name: None,
            type_,
            span: Span { start: 0, end: 0 },
            aliased: false,
        },
    }
}

/// The result of a select list as far as it has been built.
pub struct Output {
    /// The output columns.
    pub columns: Seq<SelectTypeColumnView>,
    /// The columns with an alias, which later clauses can refer to.
    pub scope: Seq<(Seq<char>, FullTypeView)>,
    /// The warnings for names that occur more than once.
    pub duplicates: Seq<IssueView>,
}

/// One warning for each of the first `k` of `columns` that is named `name`,
/// raised at the span of the new column of that name.
pub open spec fn duplicate_warnings(
    columns: Seq<SelectTypeColumnView>,
    name: Seq<char>,
    span: Span,
    k: nat,
) -> Seq<IssueView>
    decreases k,
{
    if k == 0 || k > columns.len() {
        Seq::empty()
    } else if columns[k - 1].name == Some(name) {
        duplicate_warnings(columns, name, span, (k - 1) as nat).push(
            IssueView::warn(MessageView::MultipleColumnsWithName(name), span).frag(
                MessageView::AlsoDefinedHere,
                columns[k - 1].span,
            ),
        )
    } else {
        duplicate_warnings(columns, name, span, (k - 1) as nat)
    }
}

/// The output with the column `c` added at its end.
pub open spec fn add_output(out: Output, c: KleeneColumnView, warn_duplicate: bool) -> Output {
    let column = SelectTypeColumnView { name: c.name, type_: c.type_, span: c.span };
    match c.name {
        Some(name) => Output {
            columns: out.columns.push(column),
            scope: if c.aliased {
                out.scope.push((name, c.type_))
            } else {
                out.scope
            },
            duplicates: if warn_duplicate {
                out.duplicates + duplicate_warnings(out.columns, name, c.span, out.columns.len())
            } else {
                out.duplicates
            },
        },
        None => Output { columns: out.columns.push(column), ..out },
    }
}

/// The output with the first `m` of `columns` added in order.
pub open spec fn add_outputs(
    out: Output,
    columns: Seq<KleeneColumnView>,
    warn_duplicate: bool,
    m: nat,
) -> Output
    decreases m,
{
    if m == 0 || m > columns.len() {
        out
    } else {
        add_output(
            add_outputs(out, columns, warn_duplicate, (m - 1) as nat),
            columns[m - 1],
            warn_duplicate,
        )
    }
}

/// What typing the items of a select list yields.
pub struct SelectItems {
    pub effects: Effects,
    pub out: Output,
}

/// Resolves the first `n` items of a select list in order.
pub open spec fn select_items(
    env: Env,
    items: Seq<SelectExpr>,
    warn_duplicate: bool,
    n: nat,
) -> SelectItems
    decreases items, n,
{
    if n == 0 || n > items.len() {
        SelectItems {
            effects: Effects::none(),
            out: Output { columns: Seq::empty(), scope: Seq::empty(), duplicates: Seq::empty() },
        }
    } else {
        let before = select_items(env, items, warn_duplicate, (n - 1) as nat);
        let item = select_item(env, items[n - 1]);
        SelectItems {
            effects: before.effects.chain(item.effects),
            out: add_outputs(before.out, item.columns, warn_duplicate, item.columns.len()),
        }
    }
}

/// The spans of the items of a select list.
pub open spec fn item_spans(items: Seq<SelectExpr>) -> Seq<Span> {
    Seq::new(items.len(), |i: int| items[i].spec_span())
}

/// The spans of output columns.
pub open spec fn column_spans(columns: Seq<SelectTypeColumnView>) -> Seq<Span> {
    Seq::new(columns.len(), |i: int| columns[i].span)
}

/// The smallest span that contains all of `spans`, or `fallback` where there
/// is none.
pub open spec fn hull_or_else(spans: Seq<Span>, fallback: Span) -> Span {
    match span_hull(spans, spans.len()) {
        Some(s) => s,
        None => fallback,
    }
}

/// What typing a select list yields.
pub struct SelectList {
    pub effects: Effects,
    pub columns: Seq<SelectTypeColumnView>,
    /// The reference that brings the aliased columns into scope.
    pub scope: ReferenceTypeView,
}

/// Types a select list. The warnings for repeated names come after all
/// other diagnostics of the list. `span` is the span of the list's clause,
/// which stands in for the span of an empty list.
pub open spec fn select_list(
    env: Env,
    items: Seq<SelectExpr>,
    span: Span,
    warn_duplicate: bool,
) -> SelectList
    decreases items, items.len() + 1,
{
    let typed = select_items(env, items, warn_duplicate, items.len());
    SelectList {
        effects: typed.effects.chain(
            Effects { issues: typed.out.duplicates, constraints: Seq::empty() },
        ),
        columns: typed.out.columns,
        scope: ReferenceTypeView {
            name: None,
            span: hull_or_else(item_spans(items), span),
            columns: typed.out.scope,
        },
    }
}

/// Whether a modifier of `SELECT` is one that the typer does not support.
pub open spec fn unsupported_flag(flag: SelectFlag) -> bool {
    flag is All || flag is Distinct || flag is DistinctRow || flag is StraightJoin
}

/// One error for each unsupported modifier among the first `n`.
pub open spec fn flags_effects(flags: Seq<SelectFlag>, n: nat) -> Effects
    decreases n,
{
    if n == 0 || n > flags.len() {
        Effects::none()
    } else {
        flags_effects(flags, (n - 1) as nat).chain_issue_if(
            unsupported_flag(flags[n - 1]),
            IssueView::todo(flags[n - 1].spec_span()),
        )
    }
}

/// The effects of typing an offset or a count of `LIMIT`, which must unify
/// with an unsigned 64-bit integer.
pub open spec fn limit_value_effects(env: Env, e: Expression) -> Effects
    decreases e, 1nat,
{
    let t = expression_type(env, e, no_flags(), BaseType::Integer);
    t.effects.chain(
        unify_effects(
            t.t.t,
            TypeView::U64,
            IssueView::err(MessageView::ExpectedIntegerType(t.t.t), e.spec_span()),
        ),
    )
}

/// The effects of typing a `LIMIT` clause, where there is one: the offset
/// first, then the count.
pub open spec fn limit_effects(env: Env, limit: Option<Limit>) -> Effects
    decreases limit, 0nat,
{
    match limit {
        Some(l) => match l.offset {
            Some(o) => limit_value_effects(env, o).chain(limit_value_effects(env, l.count)),
            None => limit_value_effects(env, l.count),
        },
        None => Effects::none(),
    }
}

/// The effects of typing a list of expressions of which nothing is
/// expected, where there is one.
pub open spec fn exprs_effects(env: Env, exprs: Option<Vec<Expression>>) -> Effects
    decreases exprs, 0nat,
{
    match exprs {
        Some(v) => args_types(env, v@, no_flags(), v@.len()).effects,
        None => Effects::none(),
    }
}

/// The effects of typing a `WHERE` clause, where there is one.
pub open spec fn where_effects(env: Env, where_: Option<Expression>) -> Effects
    decreases where_, 0nat,
{
    match where_ {
        Some(e) => condition_effects(env, e),
        None => Effects::none(),
    }
}

/// The type of a `SELECT` statement, and what typing it does to the
/// context.
///
/// The modifiers are checked, then the `FROM` clause brings its references
/// into scope, then `WHERE` is typed, then the select list. `GROUP BY`,
/// `ORDER BY` and `LIMIT` are typed with the aliases of the select list in
/// scope as well.
pub open spec fn select_type(env: Env, s: Select, warn_duplicate: bool) -> TypedSelect
    decreases s, 0nat,
{
    let from = from_type(env, s.table_references);
    let inner = env.with_references(from.references);
    let list = select_list(inner, s.select_exprs@, s.span, warn_duplicate);
    let outer = env.with_references(from.references.push(list.scope));
    TypedSelect {
        effects: flags_effects(s.flags@, s.flags@.len()).chain(from.effects).chain(
            where_effects(inner, s.where_),
        ).chain(list.effects).chain(exprs_effects(outer, s.group_by)).chain(
            exprs_effects(outer, s.order_by),
        ).chain(limit_effects(outer, s.limit)),
        t: SelectTypeView { columns: list.columns, select_span: s.span },
    }
}

/// The fragment that tells how the column at position `i` is named.
pub open spec fn name_fragment(i: usize, name: Option<Seq<char>>) -> MessageView {
    match name {
        Some(n) => MessageView::ColumnNamed(i, n),
        None => MessageView::ColumnUnnamed(i),
    }
}

/// The columns of a union as far as its branches have been merged.
pub struct Merge {
    pub effects: Effects,
    pub columns: Seq<SelectTypeColumnView>,
}

/// The effects of comparing the columns at position `i` of both sides of a
/// union, where both sides have one: an error where the names differ, and
/// then the unification of the types.
pub open spec fn merge_both(
    l: SelectTypeColumnView,
    r: SelectTypeColumnView,
    i: usize,
    left: Span,
    union_span: Span,
    right: Span,
) -> Effects {
    Effects::none().chain_issue_if(
        l.name != r.name,
        IssueView::err(MessageView::IncompatibleNamesInUnion, union_span).frag(
            name_fragment(i, l.name),
            left,
        ).frag(name_fragment(i, r.name), right),
    ).chain(
        unify_effects(
            l.type_.t,
            r.type_.t,
            IssueView::err(MessageView::IncompatibleTypesInUnion, union_span).frag(
                MessageView::ColumnOfType(i, l.type_.t),
                left,
            ).frag(MessageView::ColumnOfType(i, r.type_.t), right),
        ),
    )
}

/// Two columns of the same name whose types do not unify raise exactly one
/// error, which is about their types and cites both.
pub proof fn lemma_merge_both_incompatible(
    l: SelectTypeColumnView,
    r: SelectTypeColumnView,
    i: usize,
    left: Span,
    union_span: Span,
    right: Span,
)
    requires
        l.name == r.name,
        unify(l.type_.t, r.type_.t) is None,
    ensures
        ({
            let effects = merge_both(l, r, i, left, union_span, right);
            &&& effects.constraints.len() == 0
            &&& effects.issues.len() == 1
            &&& effects.issues[0].message == MessageView::IncompatibleTypesInUnion
            &&& effects.issues[0].span == union_span
            &&& effects.issues[0].fragments == seq![
                crate::issue::FragmentView {
                    message: MessageView::ColumnOfType(i, l.type_.t),
                    span: left,
                },
                crate::issue::FragmentView {
                    message: MessageView::ColumnOfType(i, r.type_.t),
                    span: right,
                },
            ]
        }),
{
    let effects = merge_both(l, r, i, left, union_span, right);
    assert(effects.issues[0].fragments =~= seq![
        crate::issue::FragmentView { message: MessageView::ColumnOfType(i, l.type_.t), span: left },
        crate::issue::FragmentView { message: MessageView::ColumnOfType(i, r.type_.t), span: right },
    ]);
}

/// The error for a column at position `i` that only the side at `side` has.
pub open spec fn only_on_this_side(
    c: SelectTypeColumnView,
    i: usize,
    union_span: Span,
    side: Span,
) -> IssueView {
    IssueView::err(MessageView::IncompatibleTypesInUnion, union_span).frag(
        MessageView::ColumnOnlyOnThisSide(i, c.name),
        side,
    )
}

/// The column at a position of a union where the types of both sides
/// unify to `t`: it keeps the name and span of the left side, and can be
/// `NULL` where either side can.
pub open spec fn merged_column(
    l: SelectTypeColumnView,
    r: SelectTypeColumnView,
    t: TypeView,
) -> SelectTypeColumnView {
    SelectTypeColumnView {
        type_: FullTypeView::new(t, l.type_.not_null && r.type_.not_null),
        ..l
    }
}

/// Compares the columns `l` of the left side of a union with the columns
/// `r` of a further branch at the first `k` positions.
///
/// Where both sides have a column, the names must agree and the types must
/// unify; the unified type replaces that of the left column. A column that
/// only one side has is an error. The result has the columns of the left
/// side.
pub open spec fn merge_columns(
    l: Seq<SelectTypeColumnView>,
    r: Seq<SelectTypeColumnView>,
    left: Span,
    union_span: Span,
    right: Span,
    k: nat,
) -> Merge
    decreases k,
{
    if k == 0 || (k > l.len() && k > r.len()) {
        Merge { effects: Effects::none(), columns: l }
    } else {
        let before = merge_columns(l, r, left, union_span, right, (k - 1) as nat);
        let i = (k - 1) as int;
        if i < l.len() && i < r.len() {
            Merge {
                effects: before.effects.chain(
                    merge_both(l[i], r[i], i as usize, left, union_span, right),
                ),
                columns: match unify(l[i].type_.t, r[i].type_.t) {
                    Some(t) => before.columns.update(i, merged_column(l[i], r[i], t)),
                    None => before.columns,
                },
            }
        } else if i < l.len() {
            Merge {
                effects: before.effects.chain(
                    Effects::issue(only_on_this_side(l[i], i as usize, union_span, left)),
                ),
                columns: before.columns,
            }
        } else {
            Merge {
                effects: before.effects.chain(
                    Effects::issue(only_on_this_side(r[i], i as usize, union_span, right)),
                ),
                columns: before.columns,
            }
        }
    }
}

/// The length of the longer of two sequences.
pub open spec fn longer(a: nat, b: nat) -> nat {
    if a >= b {
        a
    } else {
        b
    }
}

/// A union as far as its branches have been folded into its left side.
pub struct UnionFold {
    pub effects: Effects,
    pub columns: Seq<SelectTypeColumnView>,
    /// The span of what has been folded.
    pub left: Span,
}

/// Folds the first `n` further branches of a union into the columns
/// `first` of its left side, which has the span `left`: each branch is
/// typed and its columns are compared with those so far.
pub open spec fn union_branches(
    env: Env,
    first: Seq<SelectTypeColumnView>,
    left: Span,
    with: Seq<UnionWith>,
    n: nat,
) -> UnionFold
    decreases with, n,
{
    if n == 0 || n > with.len() {
        UnionFold { effects: Effects::none(), columns: first, left }
    } else {
        let before = union_branches(env, first, left, with, (n - 1) as nat);
        let w = with[n - 1];
        let branch = statement_type(env, *w.union_statement);
        let merged = merge_columns(
            before.columns,
            branch.t.columns,
            before.left,
            w.union_span,
            w.union_statement.spec_span(),
            longer(before.columns.len(), branch.t.columns.len()),
        );
        UnionFold {
            effects: before.effects.chain(branch.effects).chain(merged.effects),
            columns: merged.columns,
            left: before.left.spec_join(w.union_statement.spec_span()),
        }
    }
}

/// The type of a union, and what typing it does to the context.
///
/// The left side is typed, then every further branch is folded into it.
/// `ORDER BY` and `LIMIT` of the union are typed with the named columns of
/// the result in scope.
pub open spec fn union_type(env: Env, u: Union) -> TypedSelect
    decreases u, 0nat,
{
    let first = statement_type(env, *u.left);
    let folded = union_branches(env, first.t.columns, u.left.spec_span(), u.with@, u.with@.len());
    let scope = ReferenceTypeView {
        name: None,
        span: hull_or_else(column_spans(folded.columns), folded.left),
        columns: named_columns(folded.columns, folded.columns.len()),
    };
    let outer = env.with_references(env.references.push(scope));
    TypedSelect {
        effects: first.effects.chain(folded.effects).chain(exprs_effects(outer, u.order_by)).chain(
            limit_effects(outer, u.limit),
        ),
        t: SelectTypeView { columns: folded.columns, select_span: u.span },
    }
}

/// The type of a statement that stands where a query is expected, and what
/// typing it does to the context. A statement that is neither a `SELECT`
/// nor a union is reported as an internal error and has no columns.
pub open spec fn statement_type(env: Env, s: Statement) -> TypedSelect
    decreases s, 1nat,
{
    match s {
        Statement::Select(select) => select_type(env, select, true),
        Statement::Union(u) => union_type(env, u),
        Statement::Other(span) => TypedSelect {
            effects: Effects::issue(IssueView::ice(span)),
            t: SelectTypeView { columns: Seq::empty(), select_span: span },
        },
    }
}

/// A column that a select item yields, before it is added to the result.
#[derive(Clone, Debug, PartialEq, Eq)]
pub struct KleeneColumn {
    pub name: Option<String>,
    pub type_: FullType,
    pub span: Span,
    /// Whether the name is an alias that the item gives.
    pub aliased: bool,
}

impl View for KleeneColumn {
    type V = KleeneColumnView;

    open spec fn view(&self) -> KleeneColumnView {
        KleeneColumnView {
            name: self.name.deep_view(),
            type_: self.type_@,
            span: self.span,
            aliased: self.aliased,
        }
    }
}

impl DeepView for KleeneColumn {
    type V = KleeneColumnView;

    open spec fn deep_view(&self) -> KleeneColumnView {
        self@
    }
}

/// The one column that a select item yields which names a single column.
fn resolve_named_column(
    typer: &mut Typer,
    table: Option<&String>,
    col: &Identifier,
    as_: &Option<Identifier>,
) -> (r: Vec<KleeneColumn>)
    ensures
        final(typer)@ == old(typer)@.apply(
            named_column(old(typer)@.reference_types, table.deep_view(), *col, *as_).effects,
        ),
        r.deep_view() == named_column(
            old(typer)@.reference_types,
            table.deep_view(),
            *col,
            *as_,
        ).columns,
{
    let type_ = typer.lookup_column(table, col);
    let column = match as_ {
        Some(a) => KleeneColumn {
            name: Some(a.value.clone()),
            type_,
            span: a.span,
            aliased: true,
        },
        None => KleeneColumn { name: Some(col.value.clone()), type_, span: col.span, aliased: false },
    };
    one_column(column)
}

/// Raises the error for an alias behind `*`, where there is one.
fn check_star_alias(typer: &mut Typer, as_: &Option<Identifier>)
    ensures
        final(typer)@ == old(typer)@.apply(star_alias_effects(*as_)),
{
    match as_ {
        Some(a) => {
            typer.add_issue(Issue::err(Message::AsNotSupportedForStar, a.span));
        },
        None => {
            proof {
                lemma_apply_none(old(typer)@);
            }
        },
    }
}

/// Appends the columns of a reference to `out`, as output columns at `span`.
fn expand_reference(reference: &ReferenceType, span: Span, out: &mut Vec<KleeneColumn>)
    ensures
        final(out).deep_view() == old(out).deep_view() + reference_columns(reference@, span),
{
    let ghost start = out.deep_view();
    let ghost target = reference_columns(reference@, span);
    let mut j: usize = 0;
    assert(start + target.take(0) =~= start);
    while j < reference.columns.len()
        invariant
            j <= reference.columns@.len(),
            target == reference_columns(reference@, span),
            out.deep_view() == start + target.take(j as int),
        decreases reference.columns@.len() - j,
    {
        assert(reference@.columns[j as int] == reference.columns@[j as int].deep_view());
        let ghost before = *out;
        let column = KleeneColumn {
            name: Some(reference.columns[j].0.clone()),
            type_: reference.columns[j].1.ref_clone(),
            span,
            aliased: false,
        };
        out.push(column);
        proof {
            lemma_deep_view_push(before, *out, column);
            assert(out.deep_view() =~= start + target.take(j + 1));
        }
        j += 1;
    }
    assert(target.take(reference.columns@.len() as int) =~= target);
}

/// The columns of every reference in scope, as output columns at `span`.
fn expand_all(typer: &Typer, span: Span) -> (r: Vec<KleeneColumn>)
    ensures
        r.deep_view() == all_columns(typer@.reference_types, span, typer@.reference_types.len()),
{
    let ghost refs = typer@.reference_types;
    let mut out: Vec<KleeneColumn> = Vec::new();
    let mut i: usize = 0;
    assert(out.deep_view() =~= Seq::empty());
    while i < typer.reference_types.len()
        invariant
            i <= typer.reference_types@.len(),
            refs == typer@.reference_types,
            out.deep_view() == all_columns(refs, span, i as nat),
        decreases typer.reference_types@.len() - i,
    {
        assert(refs[i as int] == typer.reference_types@[i as int]@);
        expand_reference(&typer.reference_types[i], span, &mut out);
        i += 1;
    }
    out
}

/// Index of the last reference in scope that is named `table`.
fn find_reference_named(typer: &Typer, table: &String) -> (r: Option<usize>)
    ensures
        match r {
            Some(i) => i < typer.reference_types@.len() && reference_named(
                typer@.reference_types,
                table@,
                typer@.reference_types.len(),
            ) == Some(typer@.reference_types[i as int]),
            None => reference_named(
                typer@.reference_types,
                table@,
                typer@.reference_types.len(),
            ) is None,
        },
{
    let ghost refs = typer@.reference_types;
    let mut found: Option<usize> = None;
    let mut i: usize = 0;
    while i < typer.reference_types.len()
        invariant
            i <= typer.reference_types@.len(),
            refs == typer@.reference_types,
            match found {
                Some(k) => k < i && reference_named(refs, table@, i as nat) == Some(refs[k as int]),
                None => reference_named(refs, table@, i as nat) is None,
            },
        decreases typer.reference_types@.len() - i,
    {
        assert(refs[i as int] == typer.reference_types@[i as int]@);
        if name_is(&typer.reference_types[i].name, table) {
            found = Some(i);
        }
        i += 1;
    }
    found
}

/// Resolves a select item that is an identifier, which may stand for any
/// number of columns. Returns the columns that it stands for.
pub fn resolve_kleene_identifier(
    typer: &mut Typer,
    parts: &Vec<IdentifierPart>,
    span: Span,
    as_: &Option<Identifier>,
) -> (r: Vec<KleeneColumn>)
    ensures
        final(typer)@ == old(typer)@.apply(
            kleene_identifier(old(typer)@.reference_types, parts@, span, *as_).effects,
        ),
        r.deep_view() == kleene_identifier(old(typer)@.reference_types, parts@, span, *as_).columns,
{
    let ghost start = typer@;
    let none: Vec<KleeneColumn> = Vec::new();
    assert(none.deep_view() =~= Seq::empty());
    if parts.len() == 1 {
        match &parts[0] {
            IdentifierPart::Name(col) => resolve_named_column(typer, None, col, as_),
            IdentifierPart::Star(v) => {
                check_star_alias(typer, as_);
                expand_all(typer, *v)
            },
        }
    } else if parts.len() == 2 {
        match (&parts[0], &parts[1]) {
            (IdentifierPart::Name(table), IdentifierPart::Name(col)) => resolve_named_column(
                typer,
                Some(&table.value),
                col,
                as_,
            ),
            (IdentifierPart::Name(table), IdentifierPart::Star(v)) => {
                check_star_alias(typer, as_);
                let ghost mid = typer@;
                match find_reference_named(typer, &table.value) {
                    Some(i) => {
                        let mut out: Vec<KleeneColumn> = Vec::new();
                        assert(out.deep_view() =~= Seq::empty());
                        assert(start.reference_types[i as int] == typer.reference_types@[i as int]@);
                        expand_reference(&typer.reference_types[i], *v, &mut out);
                        assert(out.deep_view() =~= reference_columns(
                            start.reference_types[i as int],
                            *v,
                        ));
                        out
                    },
                    None => {
                        typer.add_issue(Issue::err(Message::UnknownTable, table.span));
                        proof {
                            lemma_advance(
                                start,
                                star_alias_effects(*as_),
                                mid,
                                Effects::issue(
                                    IssueView::err(MessageView::UnknownTable, table.span),
                                ),
                            );
                        }
                        none
                    },
                }
            },
            (IdentifierPart::Star(v), _) => {
                typer.add_issue(Issue::err(Message::NotSupportedHere, *v));
                none
            },
        }
    } else {
        typer.add_issue(Issue::err(Message::InvalidIdentifier, span));
        none
    }
}

/// Types a select item that is an expression other than an identifier.
/// Returns the column that it yields.
fn type_expression_item(
    typer: &mut Typer,
    expr: &Expression,
    as_: &Option<Identifier>,
) -> (r: KleeneColumn)
    ensures
        final(typer)@ == old(typer)@.apply(
            expression_type(
                old(typer)@.env(),
                *expr,
                no_flags(),
                BaseType::Any,
            ).effects.chain_issue_if(
                as_ is None,
                IssueView::warn(MessageView::UnnamedColumn, expr.spec_span()),
            ),
        ),
        r@ == expression_column(
            expression_type(old(typer)@.env(), *expr, no_flags(), BaseType::Any).t,
            *as_,
        ),
    decreases expr, 2nat,
{
    let ghost start = typer@;
    let type_ = type_expression(typer, expr, ExpressionFlags::new(), BaseType::Any);
    match as_ {
        Some(a) => KleeneColumn { name: Some(a.value.clone()), type_, span: a.span, aliased: true },
        None => {
            let ghost mid = typer@;
            typer.add_issue(Issue::warn(Message::UnnamedColumn, expr.span()));
            proof {
                lemma_advance(
                    start,
                    expression_type(start.env(), *expr, no_flags(), BaseType::Any).effects,
                    mid,
                    Effects::issue(IssueView::warn(MessageView::UnnamedColumn, expr.spec_span())),
                );
            }
            KleeneColumn { name: None, type_, span: Span { start: 0, end: 0 }, aliased: false }
        },
    }
}

/// A vector that holds one column.
fn one_column(column: KleeneColumn) -> (r: Vec<KleeneColumn>)
    ensures
        r.deep_view() == seq![column@],
{
    let mut columns: Vec<KleeneColumn> = Vec::new();
    let ghost before = columns;
    columns.push(column);
    proof {
        lemma_deep_view_push(before, columns, column);
        assert(before.deep_view() =~= Seq::empty());
    }
    columns
}

/// Resolves one select item. Returns the columns that it stands for.
pub fn type_select_item(typer: &mut Typer, item: &SelectExpr) -> (r: Vec<KleeneColumn>)
    ensures
        final(typer)@ == old(typer)@.apply(select_item(old(typer)@.env(), *item).effects),
        r.deep_view() == select_item(old(typer)@.env(), *item).columns,
    decreases item, 0nat,
{
    match &item.expr {
        Expression::Identifier(parts, span) => resolve_kleene_identifier(
            typer,
            parts,
            *span,
            &item.as_,
        ),
        _ => one_column(type_expression_item(typer, &item.expr, &item.as_)),
    }
}

/// The result of a select list as far as it has been built.
pub struct SelectOutput {
    pub columns: Vec<SelectTypeColumn>,
    pub scope: Vec<(String, FullType)>,
    pub duplicates: Vec<Issue>,
}

impl View for SelectOutput {
    type V = Output;

    open spec fn view(&self) -> Output {
        Output {
            columns: self.columns.deep_view(),
            scope: self.scope.deep_view(),
            duplicates: self.duplicates.deep_view(),
        }
    }
}

/// Appends to `issues` one warning for each of `columns` that is named
/// `name`.
fn warn_duplicates(
    columns: &Vec<SelectTypeColumn>,
    name: &String,
    span: Span,
    issues: &mut Vec<Issue>,
)
    ensures
        final(issues).deep_view() == old(issues).deep_view() + duplicate_warnings(
            columns.deep_view(),
            name@,
            span,
            columns@.len(),
        ),
{
    let ghost start = issues.deep_view();
    let ghost cv = columns.deep_view();
    let mut k: usize = 0;
    assert(start + duplicate_warnings(cv, name@, span, 0) =~= start);
    while k < columns.len()
        invariant
            k <= columns@.len(),
            cv == columns.deep_view(),
            issues.deep_view() == start + duplicate_warnings(cv, name@, span, k as nat),
        decreases columns@.len() - k,
    {
        assert(cv[k as int] == columns@[k as int]@);
        if name_is(&columns[k].name, name) {
            let ghost before = *issues;
            let issue = Issue::warn(Message::MultipleColumnsWithName(name.clone()), span).frag(
                Message::AlsoDefinedHere,
                columns[k].span,
            );
            issues.push(issue);
            proof {
                lemma_deep_view_push(before, *issues, issue);
                assert(issues.deep_view() =~= start + duplicate_warnings(
                    cv,
                    name@,
                    span,
                    (k + 1) as nat,
                ));
            }
        }
        k += 1;
    }
}

/// Adds the column `c` at the end of the output.
pub fn add_output_column(out: &mut SelectOutput, c: &KleeneColumn, warn_duplicate: bool)
    ensures
        final(out)@ == add_output(old(out)@, c@, warn_duplicate),
{
    let ghost before = *out;
    match &c.name {
        Some(name) => {
            if c.aliased {
                let entry = (name.clone(), c.type_.ref_clone());
                out.scope.push(entry);
                proof {
                    lemma_deep_view_push(before.scope, out.scope, entry);
                }
            }
            if warn_duplicate {
                warn_duplicates(&out.columns, name, c.span, &mut out.duplicates);
            }
        },
        None => {},
    }
    let column = SelectTypeColumn {
        name: clone_name(&c.name),
        type_: c.type_.ref_clone(),
        span: c.span,
    };
    out.columns.push(column);
    proof {
        lemma_deep_view_push(before.columns, out.columns, column);
    }
}

/// Adds `columns` at the end of the output, in order.
pub fn add_output_columns(out: &mut SelectOutput, columns: &Vec<KleeneColumn>, warn_duplicate: bool)
    ensures
        final(out)@ == add_outputs(old(out)@, columns.deep_view(), warn_duplicate, columns@.len()),
{
    let ghost before = out@;
    let ghost cv = columns.deep_view();
    let mut j: usize = 0;
    while j < columns.len()
        invariant
            j <= columns@.len(),
            cv == columns.deep_view(),
            out@ == add_outputs(before, cv, warn_duplicate, j as nat),
        decreases columns@.len() - j,
    {
        assert(cv[j as int] == columns@[j as int]@);
        add_output_column(out, &columns[j], warn_duplicate);
        j += 1;
    }
}

/// Resolves the items of a select list in order.
pub fn type_select_items(
    typer: &mut Typer,
    items: &Vec<SelectExpr>,
    warn_duplicate: bool,
) -> (r: SelectOutput)
    ensures
        final(typer)@ == old(typer)@.apply(
            select_items(old(typer)@.env(), items@, warn_duplicate, items@.len()).effects,
        ),
        r@ == select_items(old(typer)@.env(), items@, warn_duplicate, items@.len()).out,
    decreases items, 0nat,
{
    let ghost start = typer@;
    let ghost env = typer@.env();
    let mut out = SelectOutput { columns: Vec::new(), scope: Vec::new(), duplicates: Vec::new() };
    let mut i: usize = 0;
    proof {
        lemma_apply_none(start);
        assert(out.columns.deep_view() =~= Seq::empty());
        assert(out.scope.deep_view() =~= Seq::empty());
        assert(out.duplicates.deep_view() =~= Seq::empty());
    }
    while i < items.len()
        invariant
            i <= items@.len(),
            env == start.env(),
            typer@ == start.apply(select_items(env, items@, warn_duplicate, i as nat).effects),
            out@ == select_items(env, items@, warn_duplicate, i as nat).out,
        decreases items@.len() - i,
    {
        let ghost mid = typer@;
        let columns = type_select_item(typer, &items[i]);
        proof {
            lemma_advance(
                start,
                select_items(env, items@, warn_duplicate, i as nat).effects,
                mid,
                select_item(env, items@[i as int]).effects,
            );
        }
        add_output_columns(&mut out, &columns, warn_duplicate);
        i += 1;
    }
    out
}

/// The spans of the items of a select list.
pub fn spans_of_items(items: &Vec<SelectExpr>) -> (r: Vec<Span>)
    ensures
        r@ == item_spans(items@),
{
    let mut spans: Vec<Span> = Vec::new();
    let mut i: usize = 0;
    while i < items.len()
        invariant
            i <= items@.len(),
            spans@ == item_spans(items@).take(i as int),
        decreases items@.len() - i,
    {
        spans.push(items[i].span());
        assert(spans@ =~= item_spans(items@).take(i + 1));
        i += 1;
    }
    assert(item_spans(items@).take(items@.len() as int) =~= item_spans(items@));
    spans
}

/// The spans of output columns.
fn spans_of_columns(columns: &Vec<SelectTypeColumn>) -> (r: Vec<Span>)
    ensures
        r@ == column_spans(columns.deep_view()),
{
    let ghost target = column_spans(columns.deep_view());
    let mut spans: Vec<Span> = Vec::new();
    let mut i: usize = 0;
    while i < columns.len()
        invariant
            i <= columns@.len(),
            target == column_spans(columns.deep_view()),
            spans@ == target.take(i as int),
        decreases columns@.len() - i,
    {
        assert(columns.deep_view()[i as int] == columns@[i as int]@);
        spans.push(columns[i].span);
        assert(spans@ =~= target.take(i + 1));
        i += 1;
    }
    assert(target.take(columns@.len() as int) =~= target);
    spans
}

/// Types a select list, and puts the reference that brings its aliased
/// columns into scope on top of the stack of references. Returns the
/// output columns.
///
/// `span` is the span of the list's clause, which stands in for the span of
/// an empty list. A name that occurs more than once among the output
/// columns is worth a warning where `warn_duplicate` holds.
pub fn type_select_exprs(
    typer: &mut Typer,
    items: &Vec<SelectExpr>,
    span: Span,
    warn_duplicate: bool,
) -> (r: Vec<SelectTypeColumn>)
    ensures
        final(typer)@ == old(typer)@.apply(
            select_list(old(typer)@.env(), items@, span, warn_duplicate).effects,
        ).with_references(
            old(typer)@.reference_types.push(
                select_list(old(typer)@.env(), items@, span, warn_duplicate).scope,
            ),
        ),
        r.deep_view() == select_list(old(typer)@.env(), items@, span, warn_duplicate).columns,
    decreases items, 1nat,
{
    let ghost start = typer@;
    let out = type_select_items(typer, items, warn_duplicate);
    let ghost mid = typer@;
    let SelectOutput { columns, scope, duplicates } = out;
    typer.add_issues(duplicates);
    proof {
        lemma_advance(
            start,
            select_items(start.env(), items@, warn_duplicate, items@.len()).effects,
            mid,
            Effects { issues: duplicates.deep_view(), constraints: Seq::empty() },
        );
    }
    let spans = spans_of_items(items);
    push_reference(typer, ReferenceType { name: None, span: hull_or(&spans, span), columns: scope });
    columns
}

/// Raises one error for each modifier of `SELECT` that is not supported.
pub fn type_select_flags(typer: &mut Typer, flags: &Vec<SelectFlag>)
    ensures
        final(typer)@ == old(typer)@.apply(flags_effects(flags@, flags@.len())),
{
    let ghost start = typer@;
    let mut i: usize = 0;
    proof {
        lemma_apply_none(start);
    }
    while i < flags.len()
        invariant
            i <= flags@.len(),
            typer@ == start.apply(flags_effects(flags@, i as nat)),
        decreases flags@.len() - i,
    {
        let unsupported = match flags[i] {
            SelectFlag::All(_)
            | SelectFlag::Distinct(_)
            | SelectFlag::DistinctRow(_)
            | SelectFlag::StraightJoin(_) => true,
            _ => false,
        };
        if unsupported {
            let ghost mid = typer@;
            typer.add_issue(Issue::todo(flags[i].span()));
            proof {
                lemma_advance(
                    start,
                    flags_effects(flags@, i as nat),
                    mid,
                    Effects::issue(IssueView::todo(flags@[i as int].spec_span())),
                );
            }
        }
        i += 1;
    }
}

/// Types an offset or a count of `LIMIT`.
fn type_limit_value(typer: &mut Typer, e: &Expression)
    ensures
        final(typer)@ == old(typer)@.apply(limit_value_effects(old(typer)@.env(), *e)),
    decreases e, 2nat,
{
    let ghost start = typer@;
    let t = type_expression(typer, e, ExpressionFlags::new(), BaseType::Integer);
    let ghost mid = typer@;
    let issue = Issue::err(Message::ExpectedIntegerType(t.t.ref_clone()), e.span());
    let _ = typer.matched_or(&t.t, &Type::U64, issue);
    proof {
        lemma_advance(
            start,
            expression_type(start.env(), *e, no_flags(), BaseType::Integer).effects,
            mid,
            unify_effects(t@.t, TypeView::U64, issue@),
        );
    }
}

/// Types a `LIMIT` clause, where there is one.
pub fn type_limit(typer: &mut Typer, limit: &Option<Limit>)
    ensures
        final(typer)@ == old(typer)@.apply(limit_effects(old(typer)@.env(), *limit)),
    decreases limit, 0nat,
{
    let ghost start = typer@;
    match limit {
        Some(l) => {
            match &l.offset {
                Some(o) => {
                    type_limit_value(typer, o);
                    let ghost mid = typer@;
                    type_limit_value(typer, &l.count);
                    proof {
                        lemma_advance(
                            start,
                            limit_value_effects(start.env(), *o),
                            mid,
                            limit_value_effects(start.env(), l.count),
                        );
                    }
                },
                None => {
                    type_limit_value(typer, &l.count);
                },
            }
        },
        None => {
            proof {
                lemma_apply_none(start);
            }
        },
    }
}

/// Types a list of expressions of which nothing is expected, where there
/// is one.
pub fn type_exprs(typer: &mut Typer, exprs: &Option<Vec<Expression>>)
    ensures
        final(typer)@ == old(typer)@.apply(exprs_effects(old(typer)@.env(), *exprs)),
    decreases exprs, 0nat,
{
    match exprs {
        Some(v) => {
            let _ = typed_args(typer, v, ExpressionFlags::new());
        },
        None => {
            proof {
                lemma_apply_none(old(typer)@);
            }
        },
    }
}

/// Types a `WHERE` clause, where there is one.
pub fn type_where(typer: &mut Typer, where_: &Option<Expression>)
    ensures
        final(typer)@ == old(typer)@.apply(where_effects(old(typer)@.env(), *where_)),
    decreases where_, 0nat,
{
    match where_ {
        Some(e) => type_condition(typer, e),
        None => {
            proof {
                lemma_apply_none(old(typer)@);
            }
        },
    }
}

/// Types a `SELECT` statement. Returns its output columns.
///
/// The references in scope are the same afterwards as before: what the
/// `FROM` clause and the select list bring into scope does not outlive the
/// statement.
pub fn type_select(typer: &mut Typer, select: &Select, warn_duplicate: bool) -> (r: SelectType)
    ensures
        final(typer)@ == old(typer)@.apply(
            select_type(old(typer)@.env(), *select, warn_duplicate).effects,
        ),
        r@ == select_type(old(typer)@.env(), *select, warn_duplicate).t,
    decreases select, 0nat,
{
    let ghost start = typer@;
    let ghost env = typer@.env();
    let saved = clone_references(&typer.reference_types);
    let ghost from = from_type(env, select.table_references);
    let ghost inner = env.with_references(from.references);
    let ghost list = select_list(inner, select.select_exprs@, select.span, warn_duplicate);
    let ghost scoped = from.references.push(list.scope);
    let ghost outer = env.with_references(scoped);

    type_select_flags(typer, &select.flags);
    let ghost e1 = flags_effects(select.flags@, select.flags@.len());
    let ghost m1 = typer@;
    type_from(typer, &select.table_references);
    let ghost e2 = e1.chain(from.effects);
    let ghost m2 = typer@;
    proof {
        lemma_advance(start, e1, m1, from.effects);
        assert(m2 == start.apply(e2).with_references(from.references));
    }
    type_where(typer, &select.where_);
    let ghost e3 = e2.chain(where_effects(inner, select.where_));
    let ghost m3 = typer@;
    proof {
        lemma_advance_in(start, e2, from.references, m2, where_effects(inner, select.where_));
    }
    let columns = type_select_exprs(typer, &select.select_exprs, select.span, warn_duplicate);
    let ghost e4 = e3.chain(list.effects);
    let ghost m4 = typer@;
    proof {
        lemma_advance_in(start, e3, from.references, m3, list.effects);
        assert(m4 == start.apply(e4).with_references(scoped));
    }
    type_exprs(typer, &select.group_by);
    let ghost e5 = e4.chain(exprs_effects(outer, select.group_by));
    let ghost m5 = typer@;
    proof {
        lemma_advance_in(start, e4, scoped, m4, exprs_effects(outer, select.group_by));
    }
    type_exprs(typer, &select.order_by);
    let ghost e6 = e5.chain(exprs_effects(outer, select.order_by));
    let ghost m6 = typer@;
    proof {
        lemma_advance_in(start, e5, scoped, m5, exprs_effects(outer, select.order_by));
    }
    type_limit(typer, &select.limit);
    proof {
        lemma_advance_in(start, e6, scoped, m6, limit_effects(outer, select.limit));
    }
    typer.reference_types = saved;
    SelectType { columns, select_span: select.span }
}

/// The fragment that tells how the column at position `i` is named.
fn name_message(i: usize, name: &Option<String>) -> (r: Message)
    ensures
        r@ == name_fragment(i, name.deep_view()),
{
    match name {
        Some(n) => Message::ColumnNamed(i, n.clone()),
        None => Message::ColumnUnnamed(i),
    }
}

/// The error for a column at position `i` that only the side at `side` has.
fn only_on_this_side_issue(
    c: &SelectTypeColumn,
    i: usize,
    union_span: Span,
    side: Span,
) -> (r: Issue)
    ensures
        r@ == only_on_this_side(c@, i, union_span, side),
{
    Issue::err(Message::IncompatibleTypesInUnion, union_span).frag(
        Message::ColumnOnlyOnThisSide(i, clone_name(&c.name)),
        side,
    )
}

/// Compares two columns at position `i` of both sides of a union. Returns
/// the unified type of the two, if there is one.
fn merge_column_pair(
    typer: &mut Typer,
    l: &SelectTypeColumn,
    r: &SelectTypeColumn,
    i: usize,
    left: Span,
    union_span: Span,
    right: Span,
) -> (t: Option<Type>)
    ensures
        final(typer)@ == old(typer)@.apply(merge_both(l@, r@, i, left, union_span, right)),
        t.deep_view() == unify(l@.type_.t, r@.type_.t),
{
    let ghost start = typer@;
    proof {
        lemma_apply_none(start);
    }
    if !same_name(&l.name, &r.name) {
        let issue = Issue::err(Message::IncompatibleNamesInUnion, union_span).frag(
            name_message(i, &l.name),
            left,
        ).frag(name_message(i, &r.name), right);
        typer.add_issue(issue);
        proof {
            lemma_advance(start, Effects::none(), start, Effects::issue(issue@));
        }
    }
    let ghost e1 = Effects::none().chain_issue_if(
        l@.name != r@.name,
        IssueView::err(MessageView::IncompatibleNamesInUnion, union_span).frag(
            name_fragment(i, l@.name),
            left,
        ).frag(name_fragment(i, r@.name), right),
    );
    let ghost mid = typer@;
    assert(mid == start.apply(e1));
    let issue = Issue::err(Message::IncompatibleTypesInUnion, union_span).frag(
        Message::ColumnOfType(i, l.type_.t.ref_clone()),
        left,
    ).frag(Message::ColumnOfType(i, r.type_.t.ref_clone()), right);
    let t = typer.matched_or(&l.type_.t, &r.type_.t, issue);
    proof {
        lemma_advance(start, e1, mid, unify_effects(l@.type_.t, r@.type_.t, issue@));
    }
    t
}

/// The columns before position `k` are all that [`merge_columns`] touches.
pub proof fn lemma_merge_columns_frame(
    l: Seq<SelectTypeColumnView>,
    r: Seq<SelectTypeColumnView>,
    left: Span,
    union_span: Span,
    right: Span,
    k: nat,
)
    ensures
        merge_columns(l, r, left, union_span, right, k).columns.len() == l.len(),
        forall|j: int|
            k <= j < l.len() ==> merge_columns(l, r, left, union_span, right, k).columns[j] == l[j],
    decreases k,
{
    if !(k == 0 || (k > l.len() && k > r.len())) {
        lemma_merge_columns_frame(l, r, left, union_span, right, (k - 1) as nat);
    }
}

/// Compares the columns `l` of the left side of a union with the columns
/// `r` of a further branch, position by position, and replaces the type of
/// a column of `l` by the type that it unifies to.
pub fn merge_union_columns(
    typer: &mut Typer,
    l: &mut Vec<SelectTypeColumn>,
    r: &Vec<SelectTypeColumn>,
    left: Span,
    union_span: Span,
    right: Span,
)
    ensures
        final(typer)@ == old(typer)@.apply(
            merge_columns(
                old(l).deep_view(),
                r.deep_view(),
                left,
                union_span,
                right,
                longer(old(l)@.len(), r@.len()),
            ).effects,
        ),
        final(l).deep_view() == merge_columns(
            old(l).deep_view(),
            r.deep_view(),
            left,
            union_span,
            right,
            longer(old(l)@.len(), r@.len()),
        ).columns,
{
    let ghost start = typer@;
    let ghost lv = l.deep_view();
    let ghost rv = r.deep_view();
    let n = if l.len() >= r.len() {
        l.len()
    } else {
        r.len()
    };
    let mut i: usize = 0;
    proof {
        lemma_apply_none(start);
    }
    while i < n
        invariant
            i <= n,
            n == longer(lv.len(), rv.len()),
            rv == r.deep_view(),
            l@.len() == lv.len(),
            typer@ == start.apply(merge_columns(lv, rv, left, union_span, right, i as nat).effects),
            l.deep_view() == merge_columns(lv, rv, left, union_span, right, i as nat).columns,
        decreases n - i,
    {
        let ghost mid = typer@;
        let ghost done = merge_columns(lv, rv, left, union_span, right, i as nat);
        proof {
            lemma_merge_columns_frame(lv, rv, left, union_span, right, i as nat);
        }
        if i < l.len() && i < r.len() {
            assert(l.deep_view()[i as int] == l@[i as int]@);
            assert(rv[i as int] == r@[i as int]@);
            let unified = merge_column_pair(typer, &l[i], &r[i], i, left, union_span, right);
            proof {
                lemma_advance(
                    start,
                    done.effects,
                    mid,
                    merge_both(lv[i as int], rv[i as int], i, left, union_span, right),
                );
            }
            match unified {
                Some(t) => {
                    let ghost before = *l;
                    let column = SelectTypeColumn {
                        name: clone_name(&l[i].name),
                        type_: FullType::new(t, l[i].type_.not_null && r[i].type_.not_null),
                        span: l[i].span,
                    };
                    l[i] = column;
                    proof {
                        lemma_deep_view_update(before, *l, i as int, column);
                    }
                },
                None => {},
            }
        } else if i < l.len() {
            assert(l.deep_view()[i as int] == l@[i as int]@);
            let issue = only_on_this_side_issue(&l[i], i, union_span, left);
            typer.add_issue(issue);
            proof {
                lemma_advance(start, done.effects, mid, Effects::issue(issue@));
            }
        } else {
            assert(rv[i as int] == r@[i as int]@);
            let issue = only_on_this_side_issue(&r[i], i, union_span, right);
            typer.add_issue(issue);
            proof {
                lemma_advance(start, done.effects, mid, Effects::issue(issue@));
            }
        }
        i += 1;
    }
}

/// Types a union. Returns its output columns.
///
/// The references in scope are the same afterwards as before.
pub fn type_union(typer: &mut Typer, union: &Union) -> (r: SelectType)
    ensures
        final(typer)@ == old(typer)@.apply(union_type(old(typer)@.env(), *union).effects),
        r@ == union_type(old(typer)@.env(), *union).t,
    decreases union, 0nat,
{
    let ghost start = typer@;
    let ghost env = typer@.env();
    let first = type_union_select(typer, &union.left);
    let ghost e1 = statement_type(env, *union.left).effects;
    let ghost m1 = typer@;
    let ghost first_columns = first.columns.deep_view();
    let mut columns = first.columns;
    let mut left = union.left.span();
    let mut i: usize = 0;
    proof {
        lemma_apply_none(m1);
    }
    while i < union.with.len()
        invariant
            i <= union.with@.len(),
            env == start.env(),
            m1 == start.apply(e1),
            m1.env() == env,
            typer@ == m1.apply(
                union_branches(env, first_columns, union.left.spec_span(), union.with@, i as nat).effects,
            ),
            columns.deep_view() == union_branches(
                env,
                first_columns,
                union.left.spec_span(),
                union.with@,
                i as nat,
            ).columns,
            left == union_branches(
                env,
                first_columns,
                union.left.spec_span(),
                union.with@,
                i as nat,
            ).left,
        decreases union.with@.len() - i,
    {
        let ghost done = union_branches(
            env,
            first_columns,
            union.left.spec_span(),
            union.with@,
            i as nat,
        );
        let ghost c1 = typer@;
        let w = &union.with[i];
        let branch = type_union_select(typer, &w.union_statement);
        let ghost typed = statement_type(env, *w.union_statement);
        let ghost c2 = typer@;
        proof {
            lemma_advance(m1, done.effects, c1, typed.effects);
        }
        let right = w.union_statement.span();
        merge_union_columns(typer, &mut columns, &branch.columns, left, w.union_span, right);
        proof {
            lemma_advance(
                m1,
                done.effects.chain(typed.effects),
                c2,
                merge_columns(
                    done.columns,
                    typed.t.columns,
                    done.left,
                    w.union_span,
                    w.union_statement.spec_span(),
                    longer(done.columns.len(), typed.t.columns.len()),
                ).effects,
            );
        }
        left = left.join(right);
        i += 1;
    }
    let ghost folded = union_branches(
        env,
        first_columns,
        union.left.spec_span(),
        union.with@,
        union.with@.len(),
    );
    let ghost e2 = e1.chain(folded.effects);
    let ghost m2 = typer@;
    proof {
        lemma_advance(start, e1, m1, folded.effects);
    }
    let spans = spans_of_columns(&columns);
    let scope = ReferenceType {
        name: None,
        span: hull_or(&spans, left),
        columns: named_columns_of(&columns),
    };
    let ghost scoped = env.references.push(scope@);
    let ghost outer = env.with_references(scoped);
    push_reference(typer, scope);
    let ghost m3 = typer@;
    assert(m3 == start.apply(e2).with_references(scoped));
    type_exprs(typer, &union.order_by);
    let ghost e3 = e2.chain(exprs_effects(outer, union.order_by));
    let ghost m4 = typer@;
    proof {
        lemma_advance_in(start, e2, scoped, m3, exprs_effects(outer, union.order_by));
    }
    type_limit(typer, &union.limit);
    proof {
        lemma_advance_in(start, e3, scoped, m4, limit_effects(outer, union.limit));
    }
    let ghost before_pop = typer.reference_types;
    let _ = typer.reference_types.pop();
    proof {
        lemma_deep_view_drop_last(before_pop, typer.reference_types);
        assert(scoped.drop_last() =~= env.references);
    }
    SelectType { columns, select_span: union.span }
}

/// Types a statement that stands where a query is expected. Returns its
/// output columns.
///
/// A statement that is neither a `SELECT` nor a union is reported as an
/// internal error, and has no columns.
pub fn type_union_select(typer: &mut Typer, statement: &Statement) -> (r: SelectType)
    ensures
        final(typer)@ == old(typer)@.apply(statement_type(old(typer)@.env(), *statement).effects),
        r@ == statement_type(old(typer)@.env(), *statement).t,
    decreases statement, 1nat,
{
    match statement {
        Statement::Select(select) => type_select(typer, select, true),
        Statement::Union(union) => type_union(typer, union),
        Statement::Other(span) => {
            typer.add_issue(Issue::ice(*span));
            let columns: Vec<SelectTypeColumn> = Vec::new();
            assert(columns.deep_view() =~= Seq::empty());
            SelectType { columns, select_span: *span }
        },
    }
}

} // verus!
