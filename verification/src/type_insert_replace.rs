//! Typing of `INSERT` and `REPLACE` statements.

use vstd::prelude::*;
use crate::ast::{
    Expression, Identifier, InsertReplace, InsertReplaceFlag, InsertReplaceType, OnConflict,
    OnConflictAction, OnConflictTarget, Returning, Select, SelectExpr, SetPair,
};
use crate::issue::{Issue, IssueView, Message, MessageView};
use crate::schema::{Schema, SchemaView, find_schema};
use crate::scope::{ambiguous_issue, ambiguous_reference, column_defs};
use crate::span::{Span, opt_span, span_hull};
use crate::type_expression::{ExpressionFlags, expression_type, no_flags, type_expression};
use crate::type_reference::{
    condition_effects, make_table_reference, push_reference, table_reference, type_condition,
};
use crate::type_select::{
    SelectType, SelectTypeColumn, SelectTypeColumnView, SelectTypeView, item_spans, longer,
    select_list, select_type, spans_of_items, type_select, type_select_exprs,
};
use crate::typer::{
    Effects, Env, ReferenceTypeView, Typer, arg_constraints, lemma_advance,
    lemma_advance_in, lemma_apply_none, unify, unify_effects,
};
use crate::types::{BaseType, FullType, FullTypeView, TypeView};
use crate::views::lemma_deep_view_push;

verus! {

/// Whether an insert yields an auto-increment id.
#[derive(Clone, Copy, Debug, PartialEq, Eq, Structural)]
pub enum AutoIncrementId {
    /// A row is inserted, and gets an id.
    Yes,
    /// The table has no auto-increment column, or rows are replaced.
    No,
    /// The row may be skipped or updated instead of inserted.
    Optional,
}

/// A column that a statement writes to: the type that the catalog gives
/// it, and where the statement names it.
pub type TargetColumn = (FullTypeView, Span);

/// The effects of fitting a value of type `given` to a column of type
/// `expected`: the types are unified, a failure is reported as `issue`,
/// and on success the placeholders of the value are bound to the column's
/// type.
pub open spec fn fit_effects(
    given: FullTypeView,
    expected: FullTypeView,
    issue: IssueView,
) -> Effects {
    unify_effects(given.t, expected.t, issue).chain_if(
        unify(given.t, expected.t) is Some,
        Effects::constraints(arg_constraints(given.t.args(), expected)),
    )
}

/// The error for a value of type `given` at `span` that does not fit its
/// column of type `expected`, which the statement names at `column`.
pub open spec fn got_type(
    given: TypeView,
    span: Span,
    expected: TypeView,
    column: Span,
) -> IssueView {
    IssueView::err(MessageView::GotType(given), span).frag(MessageView::Expected(expected), column)
}

/// One error for each of the first `n` qualifiers of the table's name.
pub open spec fn prefix_effects(prefix: Seq<Identifier>, n: nat) -> Effects
    decreases n,
{
    if n == 0 || n > prefix.len() {
        Effects::none()
    } else {
        prefix_effects(prefix, (n - 1) as nat).chain(
            Effects::issue(IssueView::todo(prefix[n - 1].span)),
        )
    }
}

/// What looking up the columns that a statement names yields.
pub struct TargetColumns {
    pub effects: Effects,
    /// The columns that the table has, in the order of the statement.
    pub columns: Seq<TargetColumn>,
}

/// Looks up the first `n` of the columns that the statement names in the
/// table. One that the table lacks is an error, and is left out.
pub open spec fn target_columns(
    schema: SchemaView,
    columns: Seq<Identifier>,
    n: nat,
) -> TargetColumns
    decreases n,
{
    if n == 0 || n > columns.len() {
        TargetColumns { effects: Effects::none(), columns: Seq::empty() }
    } else {
        let before = target_columns(schema, columns, (n - 1) as nat);
        match schema.get_column(columns[n - 1].value@) {
            Some(c) => TargetColumns {
                effects: before.effects,
                columns: before.columns.push((c.type_, columns[n - 1].span)),
            },
            None => TargetColumns {
                effects: before.effects.chain(
                    Effects::issue(
                        IssueView::err(MessageView::NoSuchColumnInSchema, columns[n - 1].span),
                    ),
                ),
                columns: before.columns,
            },
        }
    }
}

/// What resolving the target of a statement yields.
pub struct Target {
    pub effects: Effects,
    /// The table, if the catalog has it.
    pub schema: Option<SchemaView>,
    /// The columns that are written to; empty where the table is unknown.
    pub columns: Seq<TargetColumn>,
}

/// Resolves the table that the statement writes to, and the columns that it
/// names. An unknown table is an error, and so is a view, whose columns
/// are used all the same.
pub open spec fn insert_target(
    schemas: Seq<SchemaView>,
    table: Identifier,
    columns: Seq<Identifier>,
) -> Target {
    match find_schema(schemas, table.value@) {
        Some(schema) => {
            let found = target_columns(schema, columns, columns.len());
            Target {
                effects: Effects::none().chain_issue_if(
                    schema.view,
                    IssueView::err(MessageView::InsertIntoView, table.span),
                ).chain(found.effects),
                schema: Some(schema),
                columns: found.columns,
            }
        },
        None => Target {
            effects: Effects::issue(IssueView::err(MessageView::UnknownTable, table.span)),
            schema: None,
            columns: Seq::empty(),
        },
    }
}

/// The effects of typing the value at position `j` of a row. Where the
/// statement's table is known and has a column at that position, the value
/// must fit it; any other value is typed all the same.
pub open spec fn value_effects(
    env: Env,
    e: Expression,
    known: bool,
    columns: Seq<TargetColumn>,
    j: int,
) -> Effects {
    if known && 0 <= j < columns.len() {
        let t = expression_type(env, e, no_flags(), columns[j].0.base());
        t.effects.chain(
            fit_effects(
                t.t,
                columns[j].0,
                got_type(t.t.t, e.spec_span(), columns[j].0.t, columns[j].1),
            ),
        )
    } else {
        expression_type(env, e, no_flags(), BaseType::Any).effects
    }
}

/// The effects of typing the first `n` values of a row.
pub open spec fn row_effects(
    env: Env,
    row: Seq<Expression>,
    known: bool,
    columns: Seq<TargetColumn>,
    n: nat,
) -> Effects
    decreases n,
{
    if n == 0 || n > row.len() {
        Effects::none()
    } else {
        row_effects(env, row, known, columns, (n - 1) as nat).chain(
            value_effects(env, row[n - 1], known, columns, n - 1),
        )
    }
}

/// The effects of typing the first `n` rows of a `VALUES` clause.
pub open spec fn rows_effects(
    env: Env,
    rows: Seq<Vec<Expression>>,
    known: bool,
    columns: Seq<TargetColumn>,
    n: nat,
) -> Effects
    decreases n,
{
    if n == 0 || n > rows.len() {
        Effects::none()
    } else {
        rows_effects(env, rows, known, columns, (n - 1) as nat).chain(
            row_effects(env, rows[n - 1]@, known, columns, rows[n - 1]@.len()),
        )
    }
}

/// The effects of typing a `VALUES` clause, where there is one.
pub open spec fn values_effects(
    env: Env,
    values: Option<Vec<Vec<Expression>>>,
    known: bool,
    columns: Seq<TargetColumn>,
) -> Effects {
    match values {
        Some(rows) => rows_effects(env, rows@, known, columns, rows@.len()),
        None => Effects::none(),
    }
}

/// The effects of comparing the columns that are written to with the
/// columns of the query that yields the rows, at the first `k` positions.
/// Where both have a column, the types must unify. A column that only one
/// of them has is an error.
pub open spec fn source_effects(
    columns: Seq<TargetColumn>,
    source: Seq<SelectTypeColumnView>,
    k: nat,
) -> Effects
    decreases k,
{
    if k == 0 || (k > columns.len() && k > source.len()) {
        Effects::none()
    } else {
        let before = source_effects(columns, source, (k - 1) as nat);
        let i = (k - 1) as int;
        if i < columns.len() && i < source.len() {
            before.chain(
                unify_effects(
                    source[i].type_.t,
                    columns[i].0.t,
                    got_type(source[i].type_.t, source[i].span, columns[i].0.t, columns[i].1),
                ),
            )
        } else if i < source.len() {
            before.chain(
                Effects::issue(
                    IssueView::err(MessageView::ColumnInSelectNotInInsert, source[i].span),
                ),
            )
        } else {
            before.chain(
                Effects::issue(IssueView::err(MessageView::MissingColumnInSelect, columns[i].1)),
            )
        }
    }
}

/// The effects of typing the query that yields the rows, where there is
/// one, and of comparing its columns with those that are written to, where
/// the table is known.
pub open spec fn select_source_effects(
    env: Env,
    select: Option<Select>,
    known: bool,
    columns: Seq<TargetColumn>,
) -> Effects {
    match select {
        Some(s) => {
            let source = select_type(env, s, true);
            source.effects.chain_if(
                known,
                source_effects(
                    columns,
                    source.t.columns,
                    longer(columns.len(), source.t.columns.len()),
                ),
            )
        },
        None => Effects::none(),
    }
}

/// The error for an assigned value of type `given` at `span` that does not
/// fit its column of type `expected`.
pub open spec fn got_type_expected(
    given: FullTypeView,
    expected: FullTypeView,
    span: Span,
) -> IssueView {
    IssueView::err(MessageView::GotTypeExpected { given, expected }, span)
}

/// The effects of typing the assignment `column = value`.
///
/// The column is looked up in the references in scope. Where exactly one
/// of them defines it, the value must fit the column. A column that
/// nothing defines, or more than one reference, is an error; the value is
/// typed all the same.
pub open spec fn assignment_effects(env: Env, pair: SetPair, flags: ExpressionFlags) -> Effects {
    let defs = column_defs(env.references, None, pair.column.value@, env.references.len());
    if defs.len() > 1 {
        expression_type(env, pair.value, flags, BaseType::Any).effects.chain(
            Effects::issue(ambiguous_reference(pair.column.span, defs)),
        )
    } else if defs.len() == 1 {
        let t = expression_type(env, pair.value, flags, defs[0].t.base());
        t.effects.chain(
            fit_effects(t.t, defs[0].t, got_type_expected(t.t, defs[0].t, pair.value.spec_span())),
        )
    } else {
        expression_type(env, pair.value, flags, BaseType::Any).effects.chain(
            Effects::issue(IssueView::err(MessageView::UnknownIdentifier, pair.column.span)),
        )
    }
}

/// The effects of typing the first `n` assignments in order.
pub open spec fn assignments_effects(
    env: Env,
    pairs: Seq<SetPair>,
    flags: ExpressionFlags,
    n: nat,
) -> Effects
    decreases n,
{
    if n == 0 || n > pairs.len() {
        Effects::none()
    } else {
        assignments_effects(env, pairs, flags, (n - 1) as nat).chain(
            assignment_effects(env, pairs[n - 1], flags),
        )
    }
}

/// The effects of typing a list of assignments, where there is one.
pub open spec fn set_effects(
    env: Env,
    pairs: Option<Vec<SetPair>>,
    flags: ExpressionFlags,
) -> Effects {
    match pairs {
        Some(v) => assignments_effects(env, v@, flags, v@.len()),
        None => Effects::none(),
    }
}

/// The flags of the assignments that may use `VALUE`.
pub open spec fn update_flags() -> ExpressionFlags {
    ExpressionFlags { in_on_duplicate_key_update: true }
}

/// One error for each of the first `n` names that no reference in scope
/// defines as a column.
pub open spec fn conflict_columns_effects(
    refs: Seq<ReferenceTypeView>,
    names: Seq<Identifier>,
    n: nat,
) -> Effects
    decreases n,
{
    if n == 0 || n > names.len() {
        Effects::none()
    } else {
        conflict_columns_effects(refs, names, (n - 1) as nat).chain_issue_if(
            column_defs(refs, None, names[n - 1].value@, refs.len()).len() == 0,
            IssueView::err(MessageView::UnknownIdentifier, names[n - 1].span),
        )
    }
}

/// The effects of checking the target of `ON CONFLICT`: its columns must
/// exist, and a constraint cannot be named yet.
pub open spec fn conflict_target_effects(
    refs: Seq<ReferenceTypeView>,
    target: OnConflictTarget,
) -> Effects {
    match target {
        OnConflictTarget::Columns(names) => conflict_columns_effects(refs, names@, names@.len()),
        OnConflictTarget::OnConstraint(span) => Effects::issue(IssueView::todo(span)),
        OnConflictTarget::Unspecified => Effects::none(),
    }
}

/// The effects of typing the action of `ON CONFLICT`: its assignments, and
/// then its condition, which must be a boolean.
pub open spec fn conflict_action_effects(env: Env, action: OnConflictAction) -> Effects {
    match action {
        OnConflictAction::DoNothing(_) => Effects::none(),
        OnConflictAction::DoUpdateSet { sets, where_ } => match where_ {
            Some(e) => assignments_effects(env, sets@, update_flags(), sets@.len()).chain(
                condition_effects(env, e),
            ),
            None => assignments_effects(env, sets@, update_flags(), sets@.len()),
        },
    }
}

/// The effects of typing an `ON CONFLICT` clause, where there is one.
pub open spec fn on_conflict_effects(env: Env, on_conflict: Option<OnConflict>) -> Effects {
    match on_conflict {
        Some(c) => conflict_target_effects(env.references, c.target).chain(
            conflict_action_effects(env, c.action),
        ),
        None => Effects::none(),
    }
}

/// What typing a `RETURNING` clause yields.
pub struct TypedReturning {
    pub effects: Effects,
    pub t: Option<SelectTypeView>,
}

/// The span of a `RETURNING` clause: that of its keyword joined with those
/// of its items.
pub open spec fn returning_span(r: Returning) -> Span {
    match span_hull(item_spans(r.exprs@), r.exprs@.len()) {
        Some(s) => r.span.spec_join(s),
        None => r.span,
    }
}

/// Types a `RETURNING` clause, where there is one, as a select list.
pub open spec fn returning_type(env: Env, returning: Option<Returning>) -> TypedReturning {
    match returning {
        Some(r) => {
            let list = select_list(env, r.exprs@, r.span, true);
            TypedReturning {
                effects: list.effects,
                t: Some(SelectTypeView { columns: list.columns, select_span: returning_span(r) }),
            }
        },
        None => TypedReturning { effects: Effects::none(), t: None },
    }
}

/// Whether one of the flags is `IGNORE`.
pub open spec fn has_ignore(flags: Seq<InsertReplaceFlag>) -> bool {
    exists|i: int| 0 <= i < flags.len() && (#[trigger] flags[i]) is Ignore
}

/// Whether the statement yields an auto-increment id: it does where the
/// table has an auto-increment column and the statement is an `INSERT`;
/// with `IGNORE` or `ON DUPLICATE KEY UPDATE` the row may not be inserted,
/// so that the id is optional.
pub open spec fn auto_increment_id(auto_increment: bool, ior: InsertReplace) -> AutoIncrementId {
    if auto_increment && ior.type_ is Insert {
        if has_ignore(ior.flags@) || ior.on_duplicate_key_update is Some {
            AutoIncrementId::Optional
        } else {
            AutoIncrementId::Yes
        }
    } else {
        AutoIncrementId::No
    }
}

/// The references that are in scope in the clauses behind the rows: the
/// table that is written to, where the catalog has it, and nothing else.
pub open spec fn target_scope(
    schema: Option<SchemaView>,
    table: Identifier,
) -> Seq<ReferenceTypeView> {
    match schema {
        Some(s) => seq![table_reference(s, table, false)],
        None => Seq::empty(),
    }
}

/// What typing an `INSERT` or `REPLACE` statement yields.
pub struct TypedInsert {
    pub effects: Effects,
    pub auto_increment_id: AutoIncrementId,
    /// The columns of the `RETURNING` clause, where there is one.
    pub returning: Option<SelectTypeView>,
}

/// The type of an `INSERT` or `REPLACE` statement, and what typing it does
/// to the context.
///
/// The table and the columns are resolved first. Then the rows of `VALUES`
/// or the query that yields the rows are typed, with the references in
/// scope that the context has. The assignments of `SET` and of
/// `ON DUPLICATE KEY UPDATE`, the `ON CONFLICT` clause and `RETURNING`
/// follow, with the table alone in scope.
pub open spec fn insert_type(env: Env, ior: InsertReplace) -> TypedInsert {
    let target = insert_target(env.schemas, ior.table, ior.columns@);
    let known = target.schema is Some;
    let scoped = env.with_references(target_scope(target.schema, ior.table));
    let returning = returning_type(scoped, ior.returning);
    TypedInsert {
        effects: prefix_effects(ior.table_prefix@, ior.table_prefix@.len()).chain(
            target.effects,
        ).chain(values_effects(env, ior.values, known, target.columns)).chain(
            select_source_effects(env, ior.select, known, target.columns),
        ).chain(set_effects(scoped, ior.set, no_flags())).chain(
            set_effects(scoped, ior.on_duplicate_key_update, update_flags()),
        ).chain(on_conflict_effects(scoped, ior.on_conflict)).chain(returning.effects),
        auto_increment_id: auto_increment_id(
            match target.schema {
                Some(s) => s.has_auto_increment(),
                None => false,
            },
            ior,
        ),
        returning: returning.t,
    }
}

/// A placeholder that is written to a column gets the type of the column:
/// the table holds the column's type and nullability for it afterwards.
/// This is for a column whose category is not the wildcard, and for a
/// placeholder of which no other category is known yet: of conflicting
/// uses the first one counts.
pub proof fn lemma_fit_binds_placeholder(
    table: crate::typer::ArgTable,
    base: BaseType,
    arg: crate::types::ArgRef,
    expected: FullTypeView,
    issue: IssueView,
)
    requires
        expected.base() != BaseType::Any,
        !(expected.t is Null),
        base == BaseType::Any || base == expected.base(),
        match crate::typer::arg_lookup(table, crate::typer::ArgumentKeyView::Index(arg.index)) {
            Some(known) => crate::typer::replaces(known.base(), expected.base()),
            None => true,
        },
    ensures
        ({
            let given = FullTypeView::new(TypeView::Args(base, seq![arg]), false);
            let effects = fit_effects(given, expected, issue);
            let after = crate::typer::constrain_all(
                table,
                effects.constraints,
                effects.constraints.len(),
            );
            let entry = crate::typer::arg_lookup(
                after,
                crate::typer::ArgumentKeyView::Index(arg.index),
            );
            &&& effects.issues.len() == 0
            &&& entry is Some
            &&& entry.unwrap().t == expected.t
            &&& entry.unwrap().not_null == expected.not_null
        }),
{
    let key = crate::typer::ArgumentKeyView::Index(arg.index);
    let given = FullTypeView::new(TypeView::Args(base, seq![arg]), false);
    let effects = fit_effects(given, expected, issue);
    let first = crate::typer::unify_constraints(given.t, expected.t);
    let second = arg_constraints(given.t.args(), expected);
    assert(unify(given.t, expected.t) is Some);
    assert(second.len() == 1);
    assert(first.len() >= 1);
    assert(first[0] == crate::typer::base_constraint(arg, expected.base()));
    let head = seq![first[0]];
    let tail = first.subrange(1, first.len() as int) + second;
    assert(effects.constraints =~= head + tail);
    let m = tail.len();
    assert(tail[m - 1] == second[0]);
    // The first constraint gives the placeholder the category of the column.
    let t1 = crate::typer::constrain(table, first[0]);
    assert(crate::typer::constrain_all(table, head, 0) == table);
    assert(crate::typer::constrain_all(table, head, 1) == t1);
    crate::typer::lemma_constrain_records(table, first[0]);
    // Whatever follows leaves that category, and the last constraint is the column's type.
    crate::typer::lemma_constrain_all_concat(table, head, tail, m);
    let t2 = crate::typer::constrain_all(t1, tail, (m - 1) as nat);
    crate::typer::lemma_constrain_all_monotonic(t1, tail, (m - 1) as nat, key);
    crate::typer::lemma_constrain_records(t2, second[0]);
}

/// An assignment to a column that nothing in scope defines raises what
/// typing its value raises, and then exactly one error for the column; it
/// constrains the placeholders that typing its value constrains.
pub proof fn lemma_assignment_unknown(env: Env, pair: SetPair, flags: ExpressionFlags)
    requires
        column_defs(env.references, None, pair.column.value@, env.references.len()).len() == 0,
    ensures
        ({
            let value = expression_type(env, pair.value, flags, BaseType::Any).effects;
            let effects = assignment_effects(env, pair, flags);
            &&& effects.issues == value.issues.push(
                IssueView::err(MessageView::UnknownIdentifier, pair.column.span),
            )
            &&& effects.constraints == value.constraints
        }),
{
    let value = expression_type(env, pair.value, flags, BaseType::Any).effects;
    let effects = assignment_effects(env, pair, flags);
    assert(effects.issues =~= value.issues.push(
        IssueView::err(MessageView::UnknownIdentifier, pair.column.span),
    ));
    assert(effects.constraints =~= value.constraints);
}

/// Fits a value of type `given` to a column of type `expected`, and
/// raises `issue` where it does not fit.
pub fn fit_type(typer: &mut Typer, given: &FullType, expected: &FullType, issue: Issue)
    ensures
        final(typer)@ == old(typer)@.apply(fit_effects(given@, expected@, issue@)),
{
    let ghost start = typer@;
    let unified = typer.matched_or(&given.t, &expected.t, issue);
    let ghost mid = typer@;
    if unified.is_some() {
        typer.constrain_type_args(&given.t, expected);
        proof {
            lemma_advance(
                start,
                unify_effects(given@.t, expected@.t, issue@),
                mid,
                Effects::constraints(arg_constraints(given@.t.args(), expected@)),
            );
        }
    }
}

/// Raises one error for each qualifier of the table's name.
fn type_prefix(typer: &mut Typer, prefix: &Vec<Identifier>)
    ensures
        final(typer)@ == old(typer)@.apply(prefix_effects(prefix@, prefix@.len())),
{
    let ghost start = typer@;
    let mut i: usize = 0;
    proof {
        lemma_apply_none(start);
    }
    while i < prefix.len()
        invariant
            i <= prefix@.len(),
            typer@ == start.apply(prefix_effects(prefix@, i as nat)),
        decreases prefix@.len() - i,
    {
        let ghost mid = typer@;
        typer.add_issue(Issue::todo(prefix[i].span));
        proof {
            lemma_advance(
                start,
                prefix_effects(prefix@, i as nat),
                mid,
                Effects::issue(IssueView::todo(prefix@[i as int].span)),
            );
        }
        i += 1;
    }
}

/// Looks up the columns that the statement names in the table.
fn resolve_target_columns(typer: &mut Typer, schema: &Schema, columns: &Vec<Identifier>) -> (r: Vec<
    (FullType, Span),
>)
    ensures
        final(typer)@ == old(typer)@.apply(
            target_columns(schema@, columns@, columns@.len()).effects,
        ),
        r.deep_view() == target_columns(schema@, columns@, columns@.len()).columns,
{
    let ghost start = typer@;
    let mut found: Vec<(FullType, Span)> = Vec::new();
    let mut i: usize = 0;
    proof {
        lemma_apply_none(start);
        assert(found.deep_view() =~= Seq::empty());
    }
    while i < columns.len()
        invariant
            i <= columns@.len(),
            typer@ == start.apply(target_columns(schema@, columns@, i as nat).effects),
            found.deep_view() == target_columns(schema@, columns@, i as nat).columns,
        decreases columns@.len() - i,
    {
        match schema.get_column(&columns[i].value) {
            Some(c) => {
                let ghost before = found;
                let entry = (c.type_.ref_clone(), columns[i].span);
                found.push(entry);
                proof {
                    lemma_deep_view_push(before, found, entry);
                }
            },
            None => {
                let ghost mid = typer@;
                typer.add_issue(Issue::err(Message::NoSuchColumnInSchema, columns[i].span));
                proof {
                    lemma_advance(
                        start,
                        target_columns(schema@, columns@, i as nat).effects,
                        mid,
                        Effects::issue(
                            IssueView::err(
                                MessageView::NoSuchColumnInSchema,
                                columns@[i as int].span,
                            ),
                        ),
                    );
                }
            },
        }
        i += 1;
    }
    found
}

/// Resolves the table that the statement writes to, and the columns that it
/// names. Returns the table, if the catalog has it, and the columns.
fn resolve_target<'a>(typer: &mut Typer<'a>, table: &Identifier, columns: &Vec<Identifier>) -> (r: (
    Option<&'a Schema>,
    Vec<(FullType, Span)>,
))
    ensures
        final(typer)@ == old(typer)@.apply(
            insert_target(old(typer)@.schemas, *table, columns@).effects,
        ),
        r.0.deep_view() == insert_target(old(typer)@.schemas, *table, columns@).schema,
        r.1.deep_view() == insert_target(old(typer)@.schemas, *table, columns@).columns,
{
    let ghost start = typer@;
    let schemas = typer.schemas;
    match schemas.get(&table.value) {
        Some(schema) => {
            proof {
                lemma_apply_none(start);
            }
            if schema.view {
                typer.add_issue(Issue::err(Message::InsertIntoView, table.span));
                proof {
                    lemma_advance(
                        start,
                        Effects::none(),
                        start,
                        Effects::issue(IssueView::err(MessageView::InsertIntoView, table.span)),
                    );
                }
            }
            let ghost e1 = Effects::none().chain_issue_if(
                schema@.view,
                IssueView::err(MessageView::InsertIntoView, table.span),
            );
            let ghost mid = typer@;
            assert(mid == start.apply(e1));
            let found = resolve_target_columns(typer, schema, columns);
            proof {
                lemma_advance(
                    start,
                    e1,
                    mid,
                    target_columns(schema@, columns@, columns@.len()).effects,
                );
            }
            (Some(schema), found)
        },
        None => {
            typer.add_issue(Issue::err(Message::UnknownTable, table.span));
            let found: Vec<(FullType, Span)> = Vec::new();
            assert(found.deep_view() =~= Seq::empty());
            (None, found)
        },
    }
}

/// Types the value at position `j` of a row.
fn type_value(
    typer: &mut Typer,
    e: &Expression,
    known: bool,
    columns: &Vec<(FullType, Span)>,
    j: usize,
)
    ensures
        final(typer)@ == old(typer)@.apply(
            value_effects(old(typer)@.env(), *e, known, columns.deep_view(), j as int),
        ),
{
    let ghost start = typer@;
    if known && j < columns.len() {
        assert(columns.deep_view()[j as int] == columns@[j as int].deep_view());
        let expected = &columns[j].0;
        let t = type_expression(typer, e, ExpressionFlags::new(), expected.base());
        let ghost mid = typer@;
        let issue = Issue::err(Message::GotType(t.t.ref_clone()), e.span()).frag(
            Message::Expected(expected.t.ref_clone()),
            columns[j].1,
        );
        fit_type(typer, &t, expected, issue);
        proof {
            lemma_advance(
                start,
                expression_type(start.env(), *e, no_flags(), expected@.base()).effects,
                mid,
                fit_effects(t@, expected@, issue@),
            );
        }
    } else {
        let _ = type_expression(typer, e, ExpressionFlags::new(), BaseType::Any);
    }
}

/// Types the values of a row in order.
fn type_row(typer: &mut Typer, row: &Vec<Expression>, known: bool, columns: &Vec<(FullType, Span)>)
    ensures
        final(typer)@ == old(typer)@.apply(
            row_effects(old(typer)@.env(), row@, known, columns.deep_view(), row@.len()),
        ),
{
    let ghost start = typer@;
    let ghost env = typer@.env();
    let ghost cv = columns.deep_view();
    let mut j: usize = 0;
    proof {
        lemma_apply_none(start);
    }
    while j < row.len()
        invariant
            j <= row@.len(),
            env == start.env(),
            cv == columns.deep_view(),
            typer@ == start.apply(row_effects(env, row@, known, cv, j as nat)),
        decreases row@.len() - j,
    {
        let ghost mid = typer@;
        type_value(typer, &row[j], known, columns, j);
        proof {
            lemma_advance(
                start,
                row_effects(env, row@, known, cv, j as nat),
                mid,
                value_effects(env, row@[j as int], known, cv, j as int),
            );
        }
        j += 1;
    }
}

/// Types a `VALUES` clause, where there is one.
fn type_values(
    typer: &mut Typer,
    values: &Option<Vec<Vec<Expression>>>,
    known: bool,
    columns: &Vec<(FullType, Span)>,
)
    ensures
        final(typer)@ == old(typer)@.apply(
            values_effects(old(typer)@.env(), *values, known, columns.deep_view()),
        ),
{
    let ghost start = typer@;
    let ghost env = typer@.env();
    let ghost cv = columns.deep_view();
    proof {
        lemma_apply_none(start);
    }
    match values {
        Some(rows) => {
            let mut i: usize = 0;
            while i < rows.len()
                invariant
                    i <= rows@.len(),
                    env == start.env(),
                    cv == columns.deep_view(),
                    typer@ == start.apply(rows_effects(env, rows@, known, cv, i as nat)),
                decreases rows@.len() - i,
            {
                let ghost mid = typer@;
                type_row(typer, &rows[i], known, columns);
                proof {
                    lemma_advance(
                        start,
                        rows_effects(env, rows@, known, cv, i as nat),
                        mid,
                        row_effects(env, rows@[i as int]@, known, cv, rows@[i as int]@.len()),
                    );
                }
                i += 1;
            }
        },
        None => {},
    }
}

/// Compares the columns that are written to with the columns of the query
/// that yields the rows.
fn check_source(typer: &mut Typer, columns: &Vec<(FullType, Span)>, source: &Vec<SelectTypeColumn>)
    ensures
        final(typer)@ == old(typer)@.apply(
            source_effects(
                columns.deep_view(),
                source.deep_view(),
                longer(columns@.len(), source@.len()),
            ),
        ),
{
    let ghost start = typer@;
    let ghost cv = columns.deep_view();
    let ghost sv = source.deep_view();
    let n = if columns.len() >= source.len() {
        columns.len()
    } else {
        source.len()
    };
    let mut i: usize = 0;
    proof {
        lemma_apply_none(start);
    }
    while i < n
        invariant
            i <= n,
            n == longer(cv.len(), sv.len()),
            cv == columns.deep_view(),
            sv == source.deep_view(),
            typer@ == start.apply(source_effects(cv, sv, i as nat)),
        decreases n - i,
    {
        let ghost mid = typer@;
        let ghost done = source_effects(cv, sv, i as nat);
        if i < columns.len() && i < source.len() {
            assert(cv[i as int] == columns@[i as int].deep_view());
            assert(sv[i as int] == source@[i as int]@);
            let issue = Issue::err(Message::GotType(source[i].type_.t.ref_clone()), source[i].span).frag(
                Message::Expected(columns[i].0.t.ref_clone()),
                columns[i].1,
            );
            let _ = typer.matched_or(&source[i].type_.t, &columns[i].0.t, issue);
            proof {
                lemma_advance(
                    start,
                    done,
                    mid,
                    unify_effects(sv[i as int].type_.t, cv[i as int].0.t, issue@),
                );
            }
        } else if i < source.len() {
            assert(sv[i as int] == source@[i as int]@);
            typer.add_issue(Issue::err(Message::ColumnInSelectNotInInsert, source[i].span));
            proof {
                lemma_advance(
                    start,
                    done,
                    mid,
                    Effects::issue(
                        IssueView::err(MessageView::ColumnInSelectNotInInsert, sv[i as int].span),
                    ),
                );
            }
        } else {
            assert(cv[i as int] == columns@[i as int].deep_view());
            typer.add_issue(Issue::err(Message::MissingColumnInSelect, columns[i].1));
            proof {
                lemma_advance(
                    start,
                    done,
                    mid,
                    Effects::issue(
                        IssueView::err(MessageView::MissingColumnInSelect, cv[i as int].1),
                    ),
                );
            }
        }
        i += 1;
    }
}

/// Types the query that yields the rows, where there is one, and compares
/// its columns with those that are written to.
fn type_select_source(
    typer: &mut Typer,
    select: &Option<Select>,
    known: bool,
    columns: &Vec<(FullType, Span)>,
)
    ensures
        final(typer)@ == old(typer)@.apply(
            select_source_effects(old(typer)@.env(), *select, known, columns.deep_view()),
        ),
{
    let ghost start = typer@;
    match select {
        Some(s) => {
            let source = type_select(typer, s, true);
            let ghost mid = typer@;
            if known {
                check_source(typer, columns, &source.columns);
                proof {
                    lemma_advance(
                        start,
                        select_type(start.env(), *s, true).effects,
                        mid,
                        source_effects(
                            columns.deep_view(),
                            source.columns.deep_view(),
                            longer(columns@.len(), source.columns@.len()),
                        ),
                    );
                }
            }
        },
        None => {
            proof {
                lemma_apply_none(start);
            }
        },
    }
}

/// Types the assignment `column = value`.
pub fn type_assignment(typer: &mut Typer, pair: &SetPair, flags: ExpressionFlags)
    ensures
        final(typer)@ == old(typer)@.apply(assignment_effects(old(typer)@.env(), *pair, flags)),
{
    let ghost start = typer@;
    let ghost env = typer@.env();
    let defs = typer.column_defs(None, &pair.column.value);
    if defs.len() > 1 {
        let _ = type_expression(typer, &pair.value, flags, BaseType::Any);
        let ghost mid = typer@;
        let issue = ambiguous_issue(pair.column.span, &defs);
        typer.add_issue(issue);
        proof {
            lemma_advance(
                start,
                expression_type(env, pair.value, flags, BaseType::Any).effects,
                mid,
                Effects::issue(issue@),
            );
        }
    } else if defs.len() == 1 {
        assert(defs.deep_view()[0] == defs@[0]@);
        let expected = &defs[0].t;
        let t = type_expression(typer, &pair.value, flags, expected.base());
        let ghost mid = typer@;
        let issue = Issue::err(
            Message::GotTypeExpected { given: t.ref_clone(), expected: expected.ref_clone() },
            pair.value.span(),
        );
        fit_type(typer, &t, expected, issue);
        proof {
            lemma_advance(
                start,
                expression_type(env, pair.value, flags, expected@.base()).effects,
                mid,
                fit_effects(t@, expected@, issue@),
            );
        }
    } else {
        let _ = type_expression(typer, &pair.value, flags, BaseType::Any);
        let ghost mid = typer@;
        typer.add_issue(Issue::err(Message::UnknownIdentifier, pair.column.span));
        proof {
            lemma_advance(
                start,
                expression_type(env, pair.value, flags, BaseType::Any).effects,
                mid,
                Effects::issue(IssueView::err(MessageView::UnknownIdentifier, pair.column.span)),
            );
        }
    }
}

/// Types assignments in order.
fn type_assignments(typer: &mut Typer, pairs: &Vec<SetPair>, flags: ExpressionFlags)
    ensures
        final(typer)@ == old(typer)@.apply(
            assignments_effects(old(typer)@.env(), pairs@, flags, pairs@.len()),
        ),
{
    let ghost start = typer@;
    let ghost env = typer@.env();
    let mut i: usize = 0;
    proof {
        lemma_apply_none(start);
    }
    while i < pairs.len()
        invariant
            i <= pairs@.len(),
            env == start.env(),
            typer@ == start.apply(assignments_effects(env, pairs@, flags, i as nat)),
        decreases pairs@.len() - i,
    {
        let ghost mid = typer@;
        type_assignment(typer, &pairs[i], flags);
        proof {
            lemma_advance(
                start,
                assignments_effects(env, pairs@, flags, i as nat),
                mid,
                assignment_effects(env, pairs@[i as int], flags),
            );
        }
        i += 1;
    }
}

/// Types a list of assignments, where there is one.
fn type_set(typer: &mut Typer, pairs: &Option<Vec<SetPair>>, flags: ExpressionFlags)
    ensures
        final(typer)@ == old(typer)@.apply(set_effects(old(typer)@.env(), *pairs, flags)),
{
    match pairs {
        Some(v) => type_assignments(typer, v, flags),
        None => {
            proof {
                lemma_apply_none(old(typer)@);
            }
        },
    }
}

/// Checks that the columns of the target of `ON CONFLICT` exist.
fn check_conflict_columns(typer: &mut Typer, names: &Vec<Identifier>)
    ensures
        final(typer)@ == old(typer)@.apply(
            conflict_columns_effects(old(typer)@.reference_types, names@, names@.len()),
        ),
{
    let ghost start = typer@;
    let ghost refs = typer@.reference_types;
    let mut i: usize = 0;
    proof {
        lemma_apply_none(start);
    }
    while i < names.len()
        invariant
            i <= names@.len(),
            refs == start.reference_types,
            typer@ == start.apply(conflict_columns_effects(refs, names@, i as nat)),
        decreases names@.len() - i,
    {
        let defs = typer.column_defs(None, &names[i].value);
        if defs.len() == 0 {
            let ghost mid = typer@;
            typer.add_issue(Issue::err(Message::UnknownIdentifier, names[i].span));
            proof {
                lemma_advance(
                    start,
                    conflict_columns_effects(refs, names@, i as nat),
                    mid,
                    Effects::issue(
                        IssueView::err(MessageView::UnknownIdentifier, names@[i as int].span),
                    ),
                );
            }
        }
        i += 1;
    }
}

/// Types an `ON CONFLICT` clause, where there is one.
fn type_on_conflict(typer: &mut Typer, on_conflict: &Option<OnConflict>)
    ensures
        final(typer)@ == old(typer)@.apply(on_conflict_effects(old(typer)@.env(), *on_conflict)),
{
    let ghost start = typer@;
    let ghost env = typer@.env();
    match on_conflict {
        Some(c) => {
            match &c.target {
                OnConflictTarget::Columns(names) => check_conflict_columns(typer, names),
                OnConflictTarget::OnConstraint(span) => {
                    typer.add_issue(Issue::todo(*span));
                },
                OnConflictTarget::Unspecified => {
                    proof {
                        lemma_apply_none(start);
                    }
                },
            }
            let ghost e1 = conflict_target_effects(env.references, c.target);
            let ghost m1 = typer@;
            match &c.action {
                OnConflictAction::DoNothing(_) => {
                    proof {
                        crate::typer::lemma_none_chain(e1);
                    }
                },
                OnConflictAction::DoUpdateSet { sets, where_ } => {
                    type_assignments(typer, sets, ExpressionFlags::new().with_in_on_duplicate_key_update(true));
                    let ghost e2 = assignments_effects(env, sets@, update_flags(), sets@.len());
                    let ghost m2 = typer@;
                    match where_ {
                        Some(e) => {
                            type_condition(typer, e);
                            proof {
                                lemma_advance(m1, e2, m2, condition_effects(env, *e));
                            }
                        },
                        None => {},
                    }
                    proof {
                        lemma_advance(start, e1, m1, conflict_action_effects(env, c.action));
                    }
                },
            }
        },
        None => {
            proof {
                lemma_apply_none(start);
            }
        },
    }
}

/// Types a projection as a select list, with `span` as the span of its
/// clause. Returns its columns. The references in scope are the same
/// afterwards as before.
fn type_projection(
    typer: &mut Typer,
    items: &Vec<SelectExpr>,
    span: Span,
) -> (r: Vec<SelectTypeColumn>)
    ensures
        final(typer)@ == old(typer)@.apply(
            select_list(old(typer)@.env(), items@, span, true).effects,
        ),
        r.deep_view() == select_list(old(typer)@.env(), items@, span, true).columns,
{
    let ghost scope = select_list(old(typer)@.env(), items@, span, true).scope;
    let columns = type_select_exprs(typer, items, span, true);
    let ghost scoped = typer.reference_types;
    let _ = typer.reference_types.pop();
    proof {
        crate::views::lemma_deep_view_drop_last(scoped, typer.reference_types);
        assert(old(typer)@.reference_types.push(scope).drop_last() =~= old(typer)@.reference_types);
    }
    columns
}

/// The span of a `RETURNING` clause.
fn span_of_returning(ret: &Returning) -> (r: Span)
    ensures
        r == returning_span(*ret),
{
    let spans = spans_of_items(&ret.exprs);
    match opt_span(&spans) {
        Some(s) => ret.span.join(s),
        None => ret.span,
    }
}

/// Types a `RETURNING` clause, where there is one. Returns its columns.
fn type_returning(typer: &mut Typer, returning: &Option<Returning>) -> (r: Option<SelectType>)
    ensures
        final(typer)@ == old(typer)@.apply(returning_type(old(typer)@.env(), *returning).effects),
        r.deep_view() == returning_type(old(typer)@.env(), *returning).t,
{
    match returning {
        Some(ret) => {
            let columns = type_projection(typer, &ret.exprs, ret.span);
            Some(SelectType { columns, select_span: span_of_returning(ret) })
        },
        None => {
            proof {
                lemma_apply_none(old(typer)@);
            }
            None
        },
    }
}

/// Whether one of the flags is `IGNORE`.
fn flags_have_ignore(flags: &Vec<InsertReplaceFlag>) -> (r: bool)
    ensures
        r == has_ignore(flags@),
{
    let mut i: usize = 0;
    while i < flags.len()
        invariant
            i <= flags@.len(),
            forall|j: int| 0 <= j < i ==> !((#[trigger] flags@[j]) is Ignore),
        decreases flags@.len() - i,
    {
        if matches!(flags[i], InsertReplaceFlag::Ignore(_)) {
            return true;
        }
        i += 1;
    }
    false
}

/// Whether the statement yields an auto-increment id, given whether its
/// table has an auto-increment column.
pub fn classify_auto_increment(auto_increment: bool, ior: &InsertReplace) -> (r: AutoIncrementId)
    ensures
        r == auto_increment_id(auto_increment, *ior),
{
    if auto_increment && matches!(ior.type_, InsertReplaceType::Insert(_)) {
        if flags_have_ignore(&ior.flags) || ior.on_duplicate_key_update.is_some() {
            AutoIncrementId::Optional
        } else {
            AutoIncrementId::Yes
        }
    } else {
        AutoIncrementId::No
    }
}

/// Types the clauses of the statement that have the table alone in scope.
/// Returns the columns of `RETURNING`, where there is one.
fn type_target_clauses(typer: &mut Typer, ior: &InsertReplace) -> (r: Option<SelectType>)
    ensures
        final(typer)@ == old(typer)@.apply(
            set_effects(old(typer)@.env(), ior.set, no_flags()).chain(
                set_effects(old(typer)@.env(), ior.on_duplicate_key_update, update_flags()),
            ).chain(on_conflict_effects(old(typer)@.env(), ior.on_conflict)).chain(
                returning_type(old(typer)@.env(), ior.returning).effects,
            ),
        ),
        r.deep_view() == returning_type(old(typer)@.env(), ior.returning).t,
{
    let ghost start = typer@;
    let ghost env = typer@.env();
    type_set(typer, &ior.set, ExpressionFlags::new());
    let ghost e1 = set_effects(env, ior.set, no_flags());
    let ghost m1 = typer@;
    type_set(
        typer,
        &ior.on_duplicate_key_update,
        ExpressionFlags::new().with_in_on_duplicate_key_update(true),
    );
    let ghost e2 = e1.chain(set_effects(env, ior.on_duplicate_key_update, update_flags()));
    let ghost m2 = typer@;
    proof {
        lemma_advance(start, e1, m1, set_effects(env, ior.on_duplicate_key_update, update_flags()));
    }
    type_on_conflict(typer, &ior.on_conflict);
    let ghost e3 = e2.chain(on_conflict_effects(env, ior.on_conflict));
    let ghost m3 = typer@;
    proof {
        lemma_advance(start, e2, m2, on_conflict_effects(env, ior.on_conflict));
    }
    let returning = type_returning(typer, &ior.returning);
    proof {
        lemma_advance(start, e3, m3, returning_type(env, ior.returning).effects);
    }
    returning
}

/// Types an `INSERT` or `REPLACE` statement. Returns whether it yields an
/// auto-increment id, and the columns of its `RETURNING` clause, where
/// there is one.
///
/// The references in scope are the same afterwards as before.
pub fn type_insert_replace(typer: &mut Typer, ior: &InsertReplace) -> (r: (
    AutoIncrementId,
    Option<SelectType>,
))
    ensures
        final(typer)@ == old(typer)@.apply(insert_type(old(typer)@.env(), *ior).effects),
        r.0 == insert_type(old(typer)@.env(), *ior).auto_increment_id,
        r.1.deep_view() == insert_type(old(typer)@.env(), *ior).returning,
{
    let ghost start = typer@;
    let ghost env = typer@.env();
    let ghost target = insert_target(env.schemas, ior.table, ior.columns@);
    let ghost scope = target_scope(target.schema, ior.table);
    let ghost scoped = env.with_references(scope);

    type_prefix(typer, &ior.table_prefix);
    let ghost e1 = prefix_effects(ior.table_prefix@, ior.table_prefix@.len());
    let ghost m1 = typer@;
    let (schema, columns) = resolve_target(typer, &ior.table, &ior.columns);
    let known = schema.is_some();
    let ghost e2 = e1.chain(target.effects);
    let ghost m2 = typer@;
    proof {
        lemma_advance(start, e1, m1, target.effects);
    }
    type_values(typer, &ior.values, known, &columns);
    let ghost e3 = e2.chain(values_effects(env, ior.values, known, target.columns));
    let ghost m3 = typer@;
    proof {
        lemma_advance(start, e2, m2, values_effects(env, ior.values, known, target.columns));
    }
    type_select_source(typer, &ior.select, known, &columns);
    let ghost e4 = e3.chain(select_source_effects(env, ior.select, known, target.columns));
    let ghost m4 = typer@;
    proof {
        lemma_advance(start, e3, m3, select_source_effects(env, ior.select, known, target.columns));
    }
    let saved = typer.take_references();
    match schema {
        Some(s) => {
            push_reference(typer, make_table_reference(s, &ior.table, false));
            assert(typer@.reference_types =~= scope);
        },
        None => {},
    }
    let ghost m5 = typer@;
    assert(m5 == start.apply(e4).with_references(scope));
    let returning = type_target_clauses(typer, ior);
    proof {
        lemma_advance_in(
            start,
            e4,
            scope,
            m5,
            set_effects(scoped, ior.set, no_flags()).chain(
                set_effects(scoped, ior.on_duplicate_key_update, update_flags()),
            ).chain(on_conflict_effects(scoped, ior.on_conflict)).chain(
                returning_type(scoped, ior.returning).effects,
            ),
        );
        let a = set_effects(scoped, ior.set, no_flags());
        let b = set_effects(scoped, ior.on_duplicate_key_update, update_flags());
        let c = on_conflict_effects(scoped, ior.on_conflict);
        let d = returning_type(scoped, ior.returning).effects;
        crate::typer::lemma_chain_assoc(e4, a.chain(b).chain(c), d);
        crate::typer::lemma_chain_assoc(e4, a.chain(b), c);
        crate::typer::lemma_chain_assoc(e4, a, b);
    }
    typer.restore_references(saved);
    let auto_increment = match schema {
        Some(s) => s.has_auto_increment(),
        None => false,
    };
    (classify_auto_increment(auto_increment, ior), returning)
}

} // verus!
