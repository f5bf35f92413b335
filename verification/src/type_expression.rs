//! Typing of expressions.

use vstd::prelude::*;
use crate::ast::{BinaryOperator, Expression, IdentifierPart, UnaryOperator};
use crate::issue::{Issue, IssueView, Message, MessageView};
use crate::scope::lookup_column;
use crate::span::Span;
use crate::type_function::{function_type, incompatible, incompatible_issue, type_function};
use crate::type_select::{TypedSelect, statement_type, type_union_select};
use crate::typer::{
    Effects, Env, ReferenceTypeView, Typed, Typer, ensure_base_effects, lemma_advance,
    lemma_apply_none, unify, unify_effects,
};
use crate::types::{ArgRef, ArgType, BaseType, FullType, FullTypeView, Type, TypeView};

verus! {

/// What an expression is part of, as far as that matters for its typing.
#[derive(Clone, Copy, Debug, PartialEq, Eq, Structural)]
pub struct ExpressionFlags {
    /// Whether the expression stands in the assignments of
    /// `ON DUPLICATE KEY UPDATE`, where `VALUE` is allowed.
    pub in_on_duplicate_key_update: bool,
}

impl ExpressionFlags {
    /// The flags of an expression that is part of nothing special.
    pub fn new() -> (r: ExpressionFlags)
        ensures
            r == (ExpressionFlags { in_on_duplicate_key_update: false }),
    {
        ExpressionFlags { in_on_duplicate_key_update: false }
    }

    pub fn with_in_on_duplicate_key_update(self, value: bool) -> (r: ExpressionFlags)
        ensures
            r == (ExpressionFlags { in_on_duplicate_key_update: value }),
    {
        ExpressionFlags { in_on_duplicate_key_update: value }
    }
}

impl Default for ExpressionFlags {
    fn default() -> (r: ExpressionFlags)
        ensures
            r == no_flags(),
    {
        ExpressionFlags { in_on_duplicate_key_update: false }
    }
}

/// The flags of an expression that is part of nothing special.
pub open spec fn no_flags() -> ExpressionFlags {
    ExpressionFlags { in_on_duplicate_key_update: false }
}

/// For an operator whose operands must have a fixed category: that
/// category, and the category of the result. The other operators take
/// operands that unify.
pub open spec fn operand_bases(op: BinaryOperator) -> Option<(BaseType, BaseType)> {
    match op {
        BinaryOperator::Or | BinaryOperator::Xor | BinaryOperator::And => Some(
            (BaseType::Bool, BaseType::Bool),
        ),
        BinaryOperator::Like | BinaryOperator::NotLike => Some((BaseType::String, BaseType::Bool)),
        BinaryOperator::ShiftLeft
        | BinaryOperator::ShiftRight
        | BinaryOperator::BitAnd
        | BinaryOperator::BitOr
        | BinaryOperator::BitXor => Some((BaseType::Integer, BaseType::Integer)),
        _ => None,
    }
}

/// Whether the operator compares its operands, so that its result is a
/// boolean rather than of the operands' type.
pub open spec fn compares(op: BinaryOperator) -> bool {
    match op {
        BinaryOperator::Eq
        | BinaryOperator::NullSafeEq
        | BinaryOperator::GtEq
        | BinaryOperator::Gt
        | BinaryOperator::LtEq
        | BinaryOperator::Lt
        | BinaryOperator::Neq => true,
        _ => false,
    }
}

/// The type of a placeholder that is used as `arg_type`.
pub open spec fn arg_type(
    base: BaseType,
    index: usize,
    arg_type: ArgType,
    span: Span,
) -> FullTypeView {
    FullTypeView::new(TypeView::Args(base, seq![ArgRef { index, arg_type, span }]), false)
}

/// The type of an identifier that is used as a value: a column, possibly
/// qualified by its table.
pub open spec fn identifier_type(
    refs: Seq<ReferenceTypeView>,
    parts: Seq<IdentifierPart>,
    span: Span,
) -> Typed {
    if parts.len() == 1 {
        match parts[0] {
            IdentifierPart::Name(col) => lookup_column(refs, None, col),
            IdentifierPart::Star(s) => Typed::failed(
                IssueView::err(MessageView::NotSupportedHere, s),
            ),
        }
    } else if parts.len() == 2 {
        match (parts[0], parts[1]) {
            (IdentifierPart::Name(table), IdentifierPart::Name(col)) => lookup_column(
                refs,
                Some(table.value@),
                col,
            ),
            (IdentifierPart::Star(s), _) => Typed::failed(
                IssueView::err(MessageView::NotSupportedHere, s),
            ),
            (_, IdentifierPart::Star(s)) => Typed::failed(
                IssueView::err(MessageView::NotSupportedHere, s),
            ),
        }
    } else {
        Typed::failed(IssueView::err(MessageView::InvalidIdentifier, span))
    }
}

/// The type of a query in parentheses that is used as a value: that of its
/// one column, but nullable, since the query may yield no row.
pub open spec fn subquery_type(query: TypedSelect, span: Span) -> Typed {
    if query.t.columns.len() == 1 {
        Typed {
            effects: query.effects,
            t: FullTypeView { not_null: false, ..query.t.columns[0].type_ },
        }
    } else {
        Typed {
            effects: query.effects.chain(
                Effects::issue(IssueView::err(MessageView::SubqueryColumns, span)),
            ),
            t: FullTypeView::invalid(),
        }
    }
}

/// What typing the items on the right of `IN` yields.
pub struct InItems {
    pub effects: Effects,
    /// Whether none of the items can be `NULL`.
    pub not_null: bool,
}

/// The type of an item on the right of `IN`: a list placeholder is allowed
/// there, and is a placeholder for a list.
pub open spec fn in_item_type(env: Env, item: Expression, flags: ExpressionFlags) -> Typed
    decreases item, 1nat,
{
    match item {
        Expression::ListHack(index, span) => Typed::pure(
            arg_type(BaseType::Any, index, ArgType::ListHack, span),
        ),
        _ => expression_type(env, item, flags, BaseType::Any),
    }
}

/// Types the first `n` items on the right of `IN` and unifies each with the
/// type `lhs` of the left-hand side.
pub open spec fn in_items(
    env: Env,
    lhs: TypeView,
    lhs_span: Span,
    items: Seq<Expression>,
    span: Span,
    flags: ExpressionFlags,
    n: nat,
) -> InItems
    decreases items, n,
{
    if n == 0 || n > items.len() {
        InItems { effects: Effects::none(), not_null: true }
    } else {
        let before = in_items(env, lhs, lhs_span, items, span, flags, (n - 1) as nat);
        let item = in_item_type(env, items[n - 1], flags);
        InItems {
            effects: before.effects.chain(item.effects).chain(
                unify_effects(
                    lhs,
                    item.t.t,
                    incompatible(
                        MessageView::IncompatibleTypes,
                        span,
                        lhs,
                        lhs_span,
                        item.t.t,
                        items[n - 1].spec_span(),
                    ),
                ),
            ),
            not_null: before.not_null && item.t.not_null,
        }
    }
}

/// The type of the expression `e`, and what typing it does to the context.
///
/// `expected` is the category that the place of the expression asks for; a
/// placeholder adopts it.
pub open spec fn expression_type(
    env: Env,
    e: Expression,
    flags: ExpressionFlags,
    expected: BaseType,
) -> Typed
    decreases e, 0nat,
{
    match e {
        Expression::Null(_) => Typed::pure(FullTypeView::new(TypeView::Null, false)),
        Expression::Bool(_, _) => Typed::pure(
            FullTypeView::new(TypeView::Base(BaseType::Bool), true),
        ),
        Expression::String(_, _) => Typed::pure(
            FullTypeView::new(TypeView::Base(BaseType::String), true),
        ),
        Expression::Integer(_, _) => Typed::pure(
            FullTypeView::new(TypeView::Base(BaseType::Integer), true),
        ),
        Expression::Float(_) => Typed::pure(
            FullTypeView::new(TypeView::Base(BaseType::Float), true),
        ),
        Expression::ListHack(_, span) => Typed::failed(
            IssueView::err(MessageView::ListOutsideIn, span),
        ),
        Expression::Arg(index, span) => Typed::pure(
            arg_type(expected, index, ArgType::Normal, span),
        ),
        Expression::Invalid(_) => Typed::pure(FullTypeView::invalid()),
        Expression::Unsupported(span) => Typed::failed(IssueView::todo(span)),
        Expression::Identifier(parts, span) => identifier_type(env.references, parts@, span),
        Expression::Function(func, args, span) => function_type(env, func, args@, span, flags),
        Expression::Subquery(query) => subquery_type(
            statement_type(env, *query),
            query.spec_span(),
        ),
        Expression::Exists(query, _) => Typed {
            effects: statement_type(env, *query).effects,
            t: FullTypeView::new(TypeView::Base(BaseType::Bool), true),
        },
        Expression::Is(operand, _, _) => Typed {
            effects: expression_type(env, *operand, flags, BaseType::Any).effects,
            t: FullTypeView::new(TypeView::Base(BaseType::Bool), true),
        },
        Expression::Unary { op, operand, span } => match op {
            UnaryOperator::Not | UnaryOperator::LogicalNot => {
                let o = expression_type(env, *operand, flags, BaseType::Bool);
                Typed {
                    effects: o.effects.chain(
                        ensure_base_effects(operand.spec_span(), o.t.t, BaseType::Bool),
                    ),
                    t: FullTypeView::new(TypeView::Base(BaseType::Bool), o.t.not_null),
                }
            },
            _ => expression_type(env, *operand, flags, expected),
        },
        Expression::Binary { op, lhs, rhs, span } => match operand_bases(op) {
            Some((operand, result)) => {
                let l = expression_type(env, *lhs, flags, operand);
                let r = expression_type(env, *rhs, flags, operand);
                Typed {
                    effects: l.effects.chain(
                        ensure_base_effects(lhs.spec_span(), l.t.t, operand),
                    ).chain(r.effects).chain(ensure_base_effects(rhs.spec_span(), r.t.t, operand)),
                    t: FullTypeView::new(TypeView::Base(result), l.t.not_null && r.t.not_null),
                }
            },
            None => {
                let l = expression_type(env, *lhs, flags, BaseType::Any);
                let r = expression_type(env, *rhs, flags, BaseType::Any);
                Typed {
                    effects: l.effects.chain(r.effects).chain(
                        unify_effects(
                            l.t.t,
                            r.t.t,
                            incompatible(
                                MessageView::IncompatibleTypes,
                                span,
                                l.t.t,
                                lhs.spec_span(),
                                r.t.t,
                                rhs.spec_span(),
                            ),
                        ),
                    ),
                    t: if compares(op) {
                        FullTypeView::new(
                            TypeView::Base(BaseType::Bool),
                            op == BinaryOperator::NullSafeEq || (l.t.not_null && r.t.not_null),
                        )
                    } else {
                        match unify(l.t.t, r.t.t) {
                            Some(t) => FullTypeView::new(t, l.t.not_null && r.t.not_null),
                            None => FullTypeView::invalid(),
                        }
                    },
                }
            },
        },
        Expression::In { lhs, rhs, span } => {
            let l = expression_type(env, *lhs, flags, BaseType::Any);
            let items = in_items(env, l.t.t, lhs.spec_span(), rhs@, span, flags, rhs@.len());
            Typed {
                effects: l.effects.chain(items.effects),
                t: FullTypeView::new(
                    TypeView::Base(BaseType::Bool),
                    l.t.not_null && items.not_null,
                ),
            }
        },
    }
}

fn binary_operand_bases(op: BinaryOperator) -> (r: Option<(BaseType, BaseType)>)
    ensures
        r == operand_bases(op),
{
    match op {
        BinaryOperator::Or | BinaryOperator::Xor | BinaryOperator::And => Some(
            (BaseType::Bool, BaseType::Bool),
        ),
        BinaryOperator::Like | BinaryOperator::NotLike => Some((BaseType::String, BaseType::Bool)),
        BinaryOperator::ShiftLeft
        | BinaryOperator::ShiftRight
        | BinaryOperator::BitAnd
        | BinaryOperator::BitOr
        | BinaryOperator::BitXor => Some((BaseType::Integer, BaseType::Integer)),
        _ => None,
    }
}

fn is_comparison(op: BinaryOperator) -> (r: bool)
    ensures
        r == compares(op),
{
    match op {
        BinaryOperator::Eq
        | BinaryOperator::NullSafeEq
        | BinaryOperator::GtEq
        | BinaryOperator::Gt
        | BinaryOperator::LtEq
        | BinaryOperator::Lt
        | BinaryOperator::Neq => true,
        _ => false,
    }
}

/// The type of a placeholder that is used as `kind`.
fn placeholder_type(base: BaseType, index: usize, kind: ArgType, span: Span) -> (r: FullType)
    ensures
        r@ == arg_type(base, index, kind, span),
{
    let mut args: Vec<ArgRef> = Vec::new();
    args.push(ArgRef { index, arg_type: kind, span });
    FullType::new(Type::Args(base, args), false)
}

/// Types an identifier that is used as a value.
pub fn type_identifier(typer: &mut Typer, parts: &Vec<IdentifierPart>, span: Span) -> (r: FullType)
    ensures
        final(typer)@ == old(typer)@.apply(
            identifier_type(old(typer)@.reference_types, parts@, span).effects,
        ),
        r@ == identifier_type(old(typer)@.reference_types, parts@, span).t,
{
    if parts.len() == 1 {
        match &parts[0] {
            IdentifierPart::Name(col) => typer.lookup_column(None, col),
            IdentifierPart::Star(s) => {
                typer.add_issue(Issue::err(Message::NotSupportedHere, *s));
                FullType::invalid()
            },
        }
    } else if parts.len() == 2 {
        match (&parts[0], &parts[1]) {
            (IdentifierPart::Name(table), IdentifierPart::Name(col)) => typer.lookup_column(
                Some(&table.value),
                col,
            ),
            (IdentifierPart::Star(s), _) => {
                typer.add_issue(Issue::err(Message::NotSupportedHere, *s));
                FullType::invalid()
            },
            (_, IdentifierPart::Star(s)) => {
                typer.add_issue(Issue::err(Message::NotSupportedHere, *s));
                FullType::invalid()
            },
        }
    } else {
        typer.add_issue(Issue::err(Message::InvalidIdentifier, span));
        FullType::invalid()
    }
}

/// Types the items on the right of `IN` and unifies each with the type of
/// the left-hand side. Returns whether none of the items can be `NULL`.
pub fn type_in_items(
    typer: &mut Typer,
    lhs: &Type,
    lhs_span: Span,
    items: &Vec<Expression>,
    span: Span,
    flags: ExpressionFlags,
) -> (r: bool)
    ensures
        final(typer)@ == old(typer)@.apply(
            in_items(old(typer)@.env(), lhs@, lhs_span, items@, span, flags, items@.len()).effects,
        ),
        r == in_items(old(typer)@.env(), lhs@, lhs_span, items@, span, flags, items@.len()).not_null,
    decreases items, 0nat,
{
    let ghost start = typer@;
    let ghost env = typer@.env();
    let mut not_null = true;
    let mut i: usize = 0;
    proof {
        lemma_apply_none(start);
    }
    while i < items.len()
        invariant
            i <= items@.len(),
            env == start.env(),
            typer@ == start.apply(
                in_items(env, lhs@, lhs_span, items@, span, flags, i as nat).effects,
            ),
            not_null == in_items(env, lhs@, lhs_span, items@, span, flags, i as nat).not_null,
        decreases items@.len() - i,
    {
        let ghost done = in_items(env, lhs@, lhs_span, items@, span, flags, i as nat).effects;
        let ghost mid = typer@;
        let t = match &items[i] {
            Expression::ListHack(index, s) => {
                proof {
                    lemma_apply_none(mid);
                }
                placeholder_type(BaseType::Any, *index, ArgType::ListHack, *s)
            },
            item => type_expression(typer, item, flags, BaseType::Any),
        };
        let ghost typed = in_item_type(env, items@[i as int], flags);
        assert(t@ == typed.t);
        assert(typer@ == mid.apply(typed.effects));
        let ghost mid2 = typer@;
        proof {
            lemma_advance(start, done, mid, typed.effects);
        }
        let issue = incompatible_issue(
            Message::IncompatibleTypes,
            span,
            lhs,
            lhs_span,
            &t.t,
            items[i].span(),
        );
        let _ = typer.matched_or(lhs, &t.t, issue);
        proof {
            lemma_advance(
                start,
                done.chain(typed.effects),
                mid2,
                unify_effects(lhs@, t@.t, issue@),
            );
        }
        not_null = not_null && t.not_null;
        i += 1;
    }
    not_null
}

/// Types an expression with a unary operator.
fn type_unary(
    typer: &mut Typer,
    e: &Expression,
    flags: ExpressionFlags,
    expected: BaseType,
) -> (r: FullType)
    requires
        e is Unary,
    ensures
        final(typer)@ == old(typer)@.apply(
            expression_type(old(typer)@.env(), *e, flags, expected).effects,
        ),
        r@ == expression_type(old(typer)@.env(), *e, flags, expected).t,
    decreases e, 0nat,
{
    let ghost start = typer@;
    let ghost env = typer@.env();
    match e {
        Expression::Unary { op, operand, span } => match op {
            UnaryOperator::Not | UnaryOperator::LogicalNot => {
                let o = type_expression(typer, operand, flags, BaseType::Bool);
                let ghost mid = typer@;
                typer.ensure_base(operand.span(), &o, BaseType::Bool);
                proof {
                    lemma_advance(
                        start,
                        expression_type(env, **operand, flags, BaseType::Bool).effects,
                        mid,
                        ensure_base_effects(operand.spec_span(), o@.t, BaseType::Bool),
                    );
                }
                FullType::new(Type::Base(BaseType::Bool), o.not_null)
            },
            _ => type_expression(typer, operand, flags, expected),
        },
        _ => FullType::invalid(),
    }
}

/// Types an expression with a binary operator whose operands must have the
/// category `operand`, and whose result has the category `result`.
fn type_binary_fixed(
    typer: &mut Typer,
    e: &Expression,
    flags: ExpressionFlags,
    expected: BaseType,
    operand: BaseType,
    result: BaseType,
) -> (r: FullType)
    requires
        e is Binary,
        operand_bases(e->Binary_op) == Some((operand, result)),
    ensures
        final(typer)@ == old(typer)@.apply(
            expression_type(old(typer)@.env(), *e, flags, expected).effects,
        ),
        r@ == expression_type(old(typer)@.env(), *e, flags, expected).t,
    decreases e, 0nat,
{
    let ghost start = typer@;
    let ghost env = typer@.env();
    match e {
        Expression::Binary { op, lhs, rhs, span } => {
            let l = type_expression(typer, lhs, flags, operand);
            let ghost e1 = expression_type(env, **lhs, flags, operand).effects;
            let ghost m1 = typer@;
            typer.ensure_base(lhs.span(), &l, operand);
            let ghost e2 = e1.chain(ensure_base_effects(lhs.spec_span(), l@.t, operand));
            let ghost m2 = typer@;
            proof {
                lemma_advance(start, e1, m1, ensure_base_effects(lhs.spec_span(), l@.t, operand));
            }
            let r = type_expression(typer, rhs, flags, operand);
            let ghost e3 = e2.chain(expression_type(env, **rhs, flags, operand).effects);
            let ghost m3 = typer@;
            proof {
                lemma_advance(start, e2, m2, expression_type(env, **rhs, flags, operand).effects);
            }
            typer.ensure_base(rhs.span(), &r, operand);
            proof {
                lemma_advance(start, e3, m3, ensure_base_effects(rhs.spec_span(), r@.t, operand));
            }
            FullType::new(Type::Base(result), l.not_null && r.not_null)
        },
        _ => FullType::invalid(),
    }
}

/// Types an expression with a binary operator whose operands must unify.
fn type_binary_unified(
    typer: &mut Typer,
    e: &Expression,
    flags: ExpressionFlags,
    expected: BaseType,
) -> (r: FullType)
    requires
        e is Binary,
        operand_bases(e->Binary_op) is None,
    ensures
        final(typer)@ == old(typer)@.apply(
            expression_type(old(typer)@.env(), *e, flags, expected).effects,
        ),
        r@ == expression_type(old(typer)@.env(), *e, flags, expected).t,
    decreases e, 0nat,
{
    let ghost start = typer@;
    let ghost env = typer@.env();
    match e {
        Expression::Binary { op, lhs, rhs, span } => {
            let l = type_expression(typer, lhs, flags, BaseType::Any);
            let ghost e1 = expression_type(env, **lhs, flags, BaseType::Any).effects;
            let ghost m1 = typer@;
            let r = type_expression(typer, rhs, flags, BaseType::Any);
            let ghost e2 = e1.chain(expression_type(env, **rhs, flags, BaseType::Any).effects);
            let ghost m2 = typer@;
            proof {
                lemma_advance(
                    start,
                    e1,
                    m1,
                    expression_type(env, **rhs, flags, BaseType::Any).effects,
                );
            }
            let issue = incompatible_issue(
                Message::IncompatibleTypes,
                *span,
                &l.t,
                lhs.span(),
                &r.t,
                rhs.span(),
            );
            let unified = typer.matched_or(&l.t, &r.t, issue);
            proof {
                lemma_advance(start, e2, m2, unify_effects(l@.t, r@.t, issue@));
            }
            if is_comparison(*op) {
                FullType::new(
                    Type::Base(BaseType::Bool),
                    *op == BinaryOperator::NullSafeEq || (l.not_null && r.not_null),
                )
            } else {
                match unified {
                    Some(t) => FullType::new(t, l.not_null && r.not_null),
                    None => FullType::invalid(),
                }
            }
        },
        _ => FullType::invalid(),
    }
}

/// Types a query that is used as a value, or as the operand of `EXISTS`.
fn type_query_expression(
    typer: &mut Typer,
    e: &Expression,
    flags: ExpressionFlags,
    expected: BaseType,
) -> (r: FullType)
    requires
        e is Subquery || e is Exists,
    ensures
        final(typer)@ == old(typer)@.apply(
            expression_type(old(typer)@.env(), *e, flags, expected).effects,
        ),
        r@ == expression_type(old(typer)@.env(), *e, flags, expected).t,
    decreases e, 0nat,
{
    let ghost start = typer@;
    let ghost env = typer@.env();
    match e {
        Expression::Subquery(query) => {
            let select = type_union_select(typer, query);
            if select.columns.len() == 1 {
                let mut t = select.columns[0].type_.ref_clone();
                t.not_null = false;
                t
            } else {
                let ghost mid = typer@;
                typer.add_issue(Issue::err(Message::SubqueryColumns, query.span()));
                proof {
                    lemma_advance(
                        start,
                        statement_type(env, **query).effects,
                        mid,
                        Effects::issue(
                            IssueView::err(MessageView::SubqueryColumns, query.spec_span()),
                        ),
                    );
                }
                FullType::invalid()
            }
        },
        Expression::Exists(query, _) => {
            let _ = type_union_select(typer, query);
            FullType::new(Type::Base(BaseType::Bool), true)
        },
        _ => FullType::invalid(),
    }
}

/// Types an `IN` expression.
fn type_in(
    typer: &mut Typer,
    e: &Expression,
    flags: ExpressionFlags,
    expected: BaseType,
) -> (r: FullType)
    requires
        e is In,
    ensures
        final(typer)@ == old(typer)@.apply(
            expression_type(old(typer)@.env(), *e, flags, expected).effects,
        ),
        r@ == expression_type(old(typer)@.env(), *e, flags, expected).t,
    decreases e, 0nat,
{
    let ghost start = typer@;
    let ghost env = typer@.env();
    match e {
        Expression::In { lhs, rhs, span } => {
            let l = type_expression(typer, lhs, flags, BaseType::Any);
            let ghost mid = typer@;
            let not_null = type_in_items(typer, &l.t, lhs.span(), rhs, *span, flags);
            proof {
                lemma_advance(
                    start,
                    expression_type(env, **lhs, flags, BaseType::Any).effects,
                    mid,
                    in_items(env, l@.t, lhs.spec_span(), rhs@, *span, flags, rhs@.len()).effects,
                );
            }
            FullType::new(Type::Base(BaseType::Bool), l.not_null && not_null)
        },
        _ => FullType::invalid(),
    }
}

/// Types the expression `e`.
///
/// The whole of `e` is typed, whatever is found to be wrong with it: every
/// problem is recorded as a diagnostic, and what cannot be typed gets the
/// error marker. The references in scope are the same afterwards.
pub fn type_expression(
    typer: &mut Typer,
    e: &Expression,
    flags: ExpressionFlags,
    expected: BaseType,
) -> (r: FullType)
    ensures
        final(typer)@ == old(typer)@.apply(
            expression_type(old(typer)@.env(), *e, flags, expected).effects,
        ),
        r@ == expression_type(old(typer)@.env(), *e, flags, expected).t,
    decreases e, 1nat,
{
    proof {
        lemma_apply_none(old(typer)@);
    }
    match e {
        Expression::Null(_) => FullType::new(Type::Null, false),
        Expression::Bool(_, _) => FullType::new(Type::Base(BaseType::Bool), true),
        Expression::String(_, _) => FullType::new(Type::Base(BaseType::String), true),
        Expression::Integer(_, _) => FullType::new(Type::Base(BaseType::Integer), true),
        Expression::Float(_) => FullType::new(Type::Base(BaseType::Float), true),
        Expression::ListHack(_, span) => {
            typer.add_issue(Issue::err(Message::ListOutsideIn, *span));
            FullType::invalid()
        },
        Expression::Arg(index, span) => placeholder_type(expected, *index, ArgType::Normal, *span),
        Expression::Invalid(_) => FullType::invalid(),
        Expression::Unsupported(span) => {
            typer.add_issue(Issue::todo(*span));
            FullType::invalid()
        },
        Expression::Identifier(parts, span) => type_identifier(typer, parts, *span),
        Expression::Function(func, args, span) => type_function(typer, *func, args, *span, flags),
        Expression::Subquery(_) | Expression::Exists(_, _) => type_query_expression(
            typer,
            e,
            flags,
            expected,
        ),
        Expression::Is(operand, _, _) => {
            let _ = type_expression(typer, operand, flags, BaseType::Any);
            FullType::new(Type::Base(BaseType::Bool), true)
        },
        Expression::Unary { .. } => type_unary(typer, e, flags, expected),
        Expression::Binary { op, .. } => match binary_operand_bases(*op) {
            Some((operand, result)) => type_binary_fixed(
                typer,
                e,
                flags,
                expected,
                operand,
                result,
            ),
            None => type_binary_unified(typer, e, flags, expected),
        },
        Expression::In { .. } => type_in(typer, e, flags, expected),
    }
}

} // verus!
