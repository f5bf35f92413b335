//! Typing of the entries of a `FROM` clause.
//!
//! Each table or subquery that an entry introduces puts one reference on
//! the stack of references in scope.

use vstd::prelude::*;
use crate::ast::{Expression, Identifier, JoinType, TableReference};
use crate::issue::{Issue, IssueView, Message, MessageView};
use crate::schema::{Schema, SchemaView, find_schema};
use crate::scope::name_is;
use crate::type_expression::{expression_type, no_flags, type_expression, ExpressionFlags};
use crate::type_select::{SelectTypeColumn, SelectTypeColumnView, statement_type, type_union_select};
use crate::typer::{
    Effects, Env, ReferenceType, ReferenceTypeView, Typer, ensure_base_effects,
    lemma_advance, lemma_advance_in, lemma_apply_none,
};
use crate::types::{BaseType, FullType, FullTypeView};
use crate::views::lemma_deep_view_push;

verus! {

/// What typing entries of a `FROM` clause yields: its effects on the
/// diagnostics and placeholders, and the new stack of references.
pub struct TypedReferences {
    pub effects: Effects,
    pub references: Seq<ReferenceTypeView>,
}

/// The effects of typing the condition `e`, which must be a boolean.
pub open spec fn condition_effects(env: Env, e: Expression) -> Effects
    decreases e, 1nat,
{
    let t = expression_type(env, e, no_flags(), BaseType::Bool);
    t.effects.chain(ensure_base_effects(e.spec_span(), t.t.t, BaseType::Bool))
}

/// One error for each of the first `n` references that is named as `name`.
pub open spec fn duplicate_definitions(
    refs: Seq<ReferenceTypeView>,
    name: Identifier,
    n: nat,
) -> Seq<
    IssueView,
>
    decreases n,
{
    if n == 0 || n > refs.len() {
        Seq::empty()
    } else if refs[n - 1].name == Some(name.value@) {
        duplicate_definitions(refs, name, (n - 1) as nat).push(
            IssueView::err(MessageView::DuplicateDefinitions, name.span).frag(
                MessageView::AlreadyDefinedHere,
                refs[n - 1].span,
            ),
        )
    } else {
        duplicate_definitions(refs, name, (n - 1) as nat)
    }
}

/// The reference that the table or view `schema` brings into scope under
/// `name`. Where `force_null` holds, every column is nullable, as on the
/// outer side of a join.
pub open spec fn table_reference(
    schema: SchemaView,
    name: Identifier,
    force_null: bool,
) -> ReferenceTypeView {
    ReferenceTypeView {
        name: Some(name.value@),
        span: name.span,
        columns: Seq::new(
            schema.columns.len(),
            |i: int|
                (
                    schema.columns[i].identifier,
                    FullTypeView {
                        not_null: schema.columns[i].type_.not_null && !force_null,
                        ..schema.columns[i].type_
                    },
                ),
        ),
    }
}

/// The named columns among the first `n` of `columns`, in order.
pub open spec fn named_columns(columns: Seq<SelectTypeColumnView>, n: nat) -> Seq<
    (Seq<char>, FullTypeView),
>
    decreases n,
{
    if n == 0 || n > columns.len() {
        Seq::empty()
    } else {
        match columns[n - 1].name {
            Some(name) => named_columns(columns, (n - 1) as nat).push(
                (name, columns[n - 1].type_),
            ),
            None => named_columns(columns, (n - 1) as nat),
        }
    }
}

/// Whether the left and the right side of a join are forced to be nullable.
pub open spec fn join_nullability(join: JoinType, force_null: bool) -> (bool, bool) {
    match join {
        JoinType::Left | JoinType::NaturalLeft => (force_null, true),
        JoinType::Right | JoinType::NaturalRight => (true, force_null),
        _ => (force_null, force_null),
    }
}

/// Types one entry of a `FROM` clause.
///
/// A table must be in the catalog, and brings its columns into scope under
/// its alias, or else its name; a name that is in scope already is an
/// error. A subquery brings its named columns into scope. A join types its
/// two sides, the right one with the left one in scope, and then its
/// condition.
pub open spec fn reference_type(env: Env, r: TableReference, force_null: bool) -> TypedReferences
    decreases r, 0nat,
{
    match r {
        TableReference::Table { identifier, as_ } => match find_schema(
            env.schemas,
            identifier.value@,
        ) {
            Some(schema) => {
                let name = match as_ {
                    Some(a) => a,
                    None => identifier,
                };
                TypedReferences {
                    effects: Effects {
                        issues: duplicate_definitions(env.references, name, env.references.len()),
                        constraints: Seq::empty(),
                    },
                    references: env.references.push(table_reference(schema, name, force_null)),
                }
            },
            None => TypedReferences {
                effects: Effects::issue(IssueView::err(MessageView::UnknownTable, identifier.span)),
                references: env.references,
            },
        },
        TableReference::Query { query, as_ } => {
            let select = statement_type(env, *query);
            TypedReferences {
                effects: select.effects,
                references: env.references.push(
                    ReferenceTypeView {
                        name: match as_ {
                            Some(a) => Some(a.value@),
                            None => None,
                        },
                        span: match as_ {
                            Some(a) => a.span,
                            None => query.spec_span(),
                        },
                        columns: named_columns(select.t.columns, select.t.columns.len()),
                    },
                ),
            }
        },
        TableReference::Join { join, left, right, on } => {
            let forced = join_nullability(join, force_null);
            let l = reference_type(env, *left, forced.0);
            let r = reference_type(env.with_references(l.references), *right, forced.1);
            TypedReferences {
                effects: l.effects.chain(r.effects).chain(
                    match on {
                        Some(e) => condition_effects(env.with_references(r.references), e),
                        None => Effects::none(),
                    },
                ),
                references: r.references,
            }
        },
        TableReference::Unsupported(span) => TypedReferences {
            effects: Effects::issue(IssueView::todo(span)),
            references: env.references,
        },
    }
}

/// Types the first `n` entries of a `FROM` clause in order, each with the
/// references of those before it in scope.
pub open spec fn references_type(env: Env, refs: Seq<TableReference>, n: nat) -> TypedReferences
    decreases refs, n,
{
    if n == 0 || n > refs.len() {
        TypedReferences { effects: Effects::none(), references: env.references }
    } else {
        let before = references_type(env, refs, (n - 1) as nat);
        let r = reference_type(env.with_references(before.references), refs[n - 1], false);
        TypedReferences { effects: before.effects.chain(r.effects), references: r.references }
    }
}

/// Types a `FROM` clause, where there is one.
pub open spec fn from_type(env: Env, refs: Option<Vec<TableReference>>) -> TypedReferences
    decreases refs, 0nat,
{
    match refs {
        Some(v) => references_type(env, v@, v@.len()),
        None => TypedReferences { effects: Effects::none(), references: env.references },
    }
}

/// Types the condition `e`, which must be a boolean.
pub fn type_condition(typer: &mut Typer, e: &Expression)
    ensures
        final(typer)@ == old(typer)@.apply(condition_effects(old(typer)@.env(), *e)),
    decreases e, 2nat,
{
    let ghost start = typer@;
    let t = type_expression(typer, e, ExpressionFlags::new(), BaseType::Bool);
    let ghost mid = typer@;
    typer.ensure_base(e.span(), &t, BaseType::Bool);
    proof {
        lemma_advance(
            start,
            expression_type(start.env(), *e, no_flags(), BaseType::Bool).effects,
            mid,
            ensure_base_effects(e.spec_span(), t@.t, BaseType::Bool),
        );
    }
}

/// The reference that a table or view brings into scope under `name`.
pub fn make_table_reference(
    schema: &Schema,
    name: &Identifier,
    force_null: bool,
) -> (r: ReferenceType)
    ensures
        r@ == table_reference(schema@, *name, force_null),
{
    let ghost target = table_reference(schema@, *name, force_null).columns;
    let mut columns: Vec<(String, FullType)> = Vec::new();
    let mut i: usize = 0;
    assert(columns.deep_view() =~= target.take(0));
    while i < schema.columns.len()
        invariant
            i <= schema.columns@.len(),
            target == table_reference(schema@, *name, force_null).columns,
            columns.deep_view() == target.take(i as int),
        decreases schema.columns@.len() - i,
    {
        let c = &schema.columns[i];
        assert(schema@.columns[i as int] == c@);
        let mut t = c.type_.ref_clone();
        t.not_null = t.not_null && !force_null;
        let ghost before = columns;
        let entry = (c.identifier.clone(), t);
        columns.push(entry);
        proof {
            lemma_deep_view_push(before, columns, entry);
            assert(columns.deep_view() =~= target.take(i + 1));
        }
        i += 1;
    }
    assert(target.take(schema.columns@.len() as int) =~= target);
    ReferenceType { name: Some(name.value.clone()), span: name.span, columns }
}

/// The named columns of the result of a query, as the columns of a reference.
pub fn named_columns_of(columns: &Vec<SelectTypeColumn>) -> (r: Vec<(String, FullType)>)
    ensures
        r.deep_view() == named_columns(columns.deep_view(), columns@.len()),
{
    let mut named: Vec<(String, FullType)> = Vec::new();
    let mut i: usize = 0;
    assert(named.deep_view() =~= Seq::empty());
    while i < columns.len()
        invariant
            i <= columns@.len(),
            named.deep_view() == named_columns(columns.deep_view(), i as nat),
        decreases columns@.len() - i,
    {
        assert(columns.deep_view()[i as int] == columns@[i as int]@);
        match &columns[i].name {
            Some(name) => {
                let ghost before = named;
                let entry = (name.clone(), columns[i].type_.ref_clone());
                named.push(entry);
                proof {
                    lemma_deep_view_push(before, named, entry);
                }
            },
            None => {},
        }
        i += 1;
    }
    named
}

/// Raises one error for each reference in scope that is named as `name`.
fn check_duplicate_definitions(typer: &mut Typer, name: &Identifier)
    ensures
        final(typer)@ == old(typer)@.apply(
            Effects {
                issues: duplicate_definitions(
                    old(typer)@.reference_types,
                    *name,
                    old(typer)@.reference_types.len(),
                ),
                constraints: Seq::empty(),
            },
        ),
{
    let ghost start = typer@;
    let ghost refs = typer@.reference_types;
    let mut i: usize = 0;
    proof {
        lemma_apply_none(start);
    }
    while i < typer.reference_types.len()
        invariant
            i <= refs.len(),
            refs == start.reference_types,
            typer@.reference_types == refs,
            typer.reference_types@.len() == refs.len(),
            typer@ == start.apply(
                Effects { issues: duplicate_definitions(refs, *name, i as nat), constraints: Seq::empty() },
            ),
        decreases refs.len() - i,
    {
        assert(refs[i as int] == typer.reference_types@[i as int]@);
        if name_is(&typer.reference_types[i].name, &name.value) {
            let ghost mid = typer@;
            let span = typer.reference_types[i].span;
            let issue = Issue::err(Message::DuplicateDefinitions, name.span).frag(
                Message::AlreadyDefinedHere,
                span,
            );
            typer.add_issue(issue);
            proof {
                let done = Effects {
                    issues: duplicate_definitions(refs, *name, i as nat),
                    constraints: Seq::empty(),
                };
                lemma_advance(start, done, mid, Effects::issue(issue@));
                assert(done.chain(Effects::issue(issue@)) == Effects {
                    issues: duplicate_definitions(refs, *name, (i + 1) as nat),
                    constraints: Seq::empty(),
                }) by {
                    assert(done.issues + seq![issue@] =~= done.issues.push(issue@));
                    assert(Seq::<crate::typer::Constraint>::empty() + Seq::<
                        crate::typer::Constraint,
                    >::empty() =~= Seq::<crate::typer::Constraint>::empty());
                }
            }
        }
        i += 1;
    }
}

/// Puts a reference on top of the stack of references in scope.
pub fn push_reference(typer: &mut Typer, reference: ReferenceType)
    ensures
        final(typer)@ == old(typer)@.with_references(
            old(typer)@.reference_types.push(reference@),
        ),
{
    let ghost before = typer.reference_types;
    typer.reference_types.push(reference);
    proof {
        lemma_deep_view_push(before, typer.reference_types, reference);
    }
}

/// Whether the sides of a join are forced to be nullable.
fn join_forces(join: JoinType, force_null: bool) -> (r: (bool, bool))
    ensures
        r == join_nullability(join, force_null),
{
    match join {
        JoinType::Left | JoinType::NaturalLeft => (force_null, true),
        JoinType::Right | JoinType::NaturalRight => (true, force_null),
        _ => (force_null, force_null),
    }
}

/// Types one entry of a `FROM` clause, and puts the references that it
/// introduces on the stack of references in scope.
pub fn type_reference(typer: &mut Typer, reference: &TableReference, force_null: bool)
    ensures
        final(typer)@ == old(typer)@.apply(
            reference_type(old(typer)@.env(), *reference, force_null).effects,
        ).with_references(reference_type(old(typer)@.env(), *reference, force_null).references),
    decreases reference, 0nat,
{
    let ghost start = typer@;
    let ghost env = typer@.env();
    match reference {
        TableReference::Table { identifier, as_ } => {
            let schemas = typer.schemas;
            match schemas.get(&identifier.value) {
                Some(schema) => {
                    let name = match as_ {
                        Some(a) => a,
                        None => identifier,
                    };
                    check_duplicate_definitions(typer, name);
                    push_reference(typer, make_table_reference(schema, name, force_null));
                },
                None => {
                    typer.add_issue(Issue::err(Message::UnknownTable, identifier.span));
                },
            }
        },
        TableReference::Query { query, as_ } => {
            let select = type_union_select(typer, query);
            let reference = match as_ {
                Some(a) => ReferenceType {
                    name: Some(a.value.clone()),
                    span: a.span,
                    columns: named_columns_of(&select.columns),
                },
                None => ReferenceType {
                    name: None,
                    span: query.span(),
                    columns: named_columns_of(&select.columns),
                },
            };
            push_reference(typer, reference);
        },
        TableReference::Join { join, left, right, on } => {
            let forced = join_forces(*join, force_null);
            type_reference(typer, left, forced.0);
            let ghost l = reference_type(env, **left, forced.0);
            let ghost m1 = typer@;
            type_reference(typer, right, forced.1);
            let ghost r = reference_type(env.with_references(l.references), **right, forced.1);
            let ghost m2 = typer@;
            proof {
                lemma_advance_in(start, l.effects, l.references, m1, r.effects);
            }
            match on {
                Some(e) => {
                    type_condition(typer, e);
                    proof {
                        lemma_advance_in(
                            start,
                            l.effects.chain(r.effects),
                            r.references,
                            m2,
                            condition_effects(env.with_references(r.references), *e),
                        );
                    }
                },
                None => {
                    proof {
                        crate::typer::lemma_none_chain(l.effects.chain(r.effects));
                    }
                },
            }
        },
        TableReference::Unsupported(span) => {
            typer.add_issue(Issue::todo(*span));
        },
    }
}

/// Types the entries of a `FROM` clause in order.
pub fn type_references(typer: &mut Typer, references: &Vec<TableReference>)
    ensures
        final(typer)@ == old(typer)@.apply(
            references_type(old(typer)@.env(), references@, references@.len()).effects,
        ).with_references(
            references_type(old(typer)@.env(), references@, references@.len()).references,
        ),
    decreases references, 0nat,
{
    let ghost start = typer@;
    let ghost env = typer@.env();
    let mut i: usize = 0;
    proof {
        lemma_apply_none(start);
    }
    while i < references.len()
        invariant
            i <= references@.len(),
            env == start.env(),
            typer@ == start.apply(references_type(env, references@, i as nat).effects).with_references(
                references_type(env, references@, i as nat).references,
            ),
        decreases references@.len() - i,
    {
        let ghost before = references_type(env, references@, i as nat);
        let ghost mid = typer@;
        type_reference(typer, &references[i], false);
        proof {
            lemma_advance_in(
                start,
                before.effects,
                before.references,
                mid,
                reference_type(
                    env.with_references(before.references),
                    references@[i as int],
                    false,
                ).effects,
            );
        }
        i += 1;
    }
}

/// Types a `FROM` clause, where there is one.
pub fn type_from(typer: &mut Typer, references: &Option<Vec<TableReference>>)
    ensures
        final(typer)@ == old(typer)@.apply(
            from_type(old(typer)@.env(), *references).effects,
        ).with_references(from_type(old(typer)@.env(), *references).references),
    decreases references, 1nat,
{
    match references {
        Some(v) => type_references(typer, v),
        None => {
            proof {
                lemma_apply_none(old(typer)@);
            }
        },
    }
}

} // verus!
