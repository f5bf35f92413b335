//! Typing of calls of built-in functions.
//!
//! Most functions are described by a signature: the type of the result and
//! the categories of the required and the optional arguments. The others
//! have a rule of their own. Every argument of a call is typed exactly
//! once, whatever is wrong with the call.

use vstd::prelude::*;
use crate::ast::{Expression, Function};
use crate::issue::{FragmentView, Issue, IssueView, Level, Message, MessageView};
use crate::span::Span;
use crate::type_expression::{ExpressionFlags, expression_type, type_expression};
use crate::typer::{
    Effects, Env, Typed, Typer, ensure_base_effects, ensure_type_effects, lemma_advance,
    lemma_apply_none, unify, unify_effects,
};
use crate::types::{BaseType, FullType, FullTypeView, Type, TypeView};
use crate::views::lemma_deep_view_push;

verus! {

/// The signature of a function that is typed by its signature.
#[derive(Clone, Debug, PartialEq, Eq)]
pub struct Signature {
    /// The type of the result.
    pub result: Type,
    /// The categories of the arguments: the required ones, then the optional ones.
    pub args: Vec<BaseType>,
    /// How many of `args` are required.
    pub required: usize,
}

/// Mathematical model of a [`Signature`].
pub struct SignatureView {
    pub result: TypeView,
    pub args: Seq<BaseType>,
    pub required: usize,
}

impl View for Signature {
    type V = SignatureView;

    open spec fn view(&self) -> SignatureView {
        SignatureView { result: self.result@, args: self.args@, required: self.required }
    }
}

impl DeepView for Signature {
    type V = SignatureView;

    open spec fn deep_view(&self) -> SignatureView {
        self@
    }
}

/// The signature of `func`, for the functions that are typed by one.
pub open spec fn signature(func: Function) -> Option<SignatureView> {
    let string = TypeView::Base(BaseType::String);
    match func {
        Function::Rand => Some(
            SignatureView { result: TypeView::F64, args: seq![BaseType::Integer], required: 0 },
        ),
        Function::Right | Function::Left => Some(
            SignatureView {
                result: string,
                args: seq![BaseType::String, BaseType::Integer],
                required: 2,
            },
        ),
        Function::SubStr => Some(
            SignatureView {
                result: string,
                args: seq![BaseType::String, BaseType::Integer, BaseType::Integer],
                required: 2,
            },
        ),
        Function::FindInSet => Some(
            SignatureView {
                result: TypeView::Base(BaseType::Integer),
                args: seq![BaseType::String, BaseType::String],
                required: 2,
            },
        ),
        Function::SubStringIndex => Some(
            SignatureView {
                result: string,
                args: seq![BaseType::String, BaseType::String, BaseType::Integer],
                required: 3,
            },
        ),
        Function::ExtractValue => Some(
            SignatureView {
                result: string,
                args: seq![BaseType::String, BaseType::String],
                required: 2,
            },
        ),
        Function::Replace => Some(
            SignatureView {
                result: string,
                args: seq![BaseType::String, BaseType::String, BaseType::String],
                required: 3,
            },
        ),
        Function::CharacterLength => Some(
            SignatureView {
                result: TypeView::Base(BaseType::Integer),
                args: seq![BaseType::String],
                required: 1,
            },
        ),
        Function::Now => Some(
            SignatureView {
                result: TypeView::Base(BaseType::DateTime),
                args: seq![BaseType::Integer],
                required: 0,
            },
        ),
        Function::CurDate => Some(
            SignatureView { result: TypeView::Base(BaseType::Date), args: seq![], required: 0 },
        ),
        Function::CurrentTimestamp => Some(
            SignatureView {
                result: TypeView::Base(BaseType::TimeStamp),
                args: seq![BaseType::Integer],
                required: 0,
            },
        ),
        Function::DateFormat => Some(
            SignatureView {
                result: string,
                args: seq![BaseType::DateTime, BaseType::String, BaseType::String],
                required: 2,
            },
        ),
        _ => None,
    }
}

fn bases1(a: BaseType) -> (r: Vec<BaseType>)
    ensures
        r@ == seq![a],
{
    let mut r = Vec::new();
    r.push(a);
    r
}

fn bases2(a: BaseType, b: BaseType) -> (r: Vec<BaseType>)
    ensures
        r@ == seq![a, b],
{
    let mut r = Vec::new();
    r.push(a);
    r.push(b);
    r
}

fn bases3(a: BaseType, b: BaseType, c: BaseType) -> (r: Vec<BaseType>)
    ensures
        r@ == seq![a, b, c],
{
    let mut r = Vec::new();
    r.push(a);
    r.push(b);
    r.push(c);
    r
}

/// The signature of `func`, for the functions that are typed by one.
pub fn declared_signature(func: Function) -> (r: Option<Signature>)
    ensures
        r.deep_view() == signature(func),
{
    match func {
        Function::Rand => Some(
            Signature { result: Type::F64, args: bases1(BaseType::Integer), required: 0 },
        ),
        Function::Right | Function::Left => Some(
            Signature {
                result: Type::Base(BaseType::String),
                args: bases2(BaseType::String, BaseType::Integer),
                required: 2,
            },
        ),
        Function::SubStr => Some(
            Signature {
                result: Type::Base(BaseType::String),
                args: bases3(BaseType::String, BaseType::Integer, BaseType::Integer),
                required: 2,
            },
        ),
        Function::FindInSet => Some(
            Signature {
                result: Type::Base(BaseType::Integer),
                args: bases2(BaseType::String, BaseType::String),
                required: 2,
            },
        ),
        Function::SubStringIndex => Some(
            Signature {
                result: Type::Base(BaseType::String),
                args: bases3(BaseType::String, BaseType::String, BaseType::Integer),
                required: 3,
            },
        ),
        Function::ExtractValue => Some(
            Signature {
                result: Type::Base(BaseType::String),
                args: bases2(BaseType::String, BaseType::String),
                required: 2,
            },
        ),
        Function::Replace => Some(
            Signature {
                result: Type::Base(BaseType::String),
                args: bases3(BaseType::String, BaseType::String, BaseType::String),
                required: 3,
            },
        ),
        Function::CharacterLength => Some(
            Signature {
                result: Type::Base(BaseType::Integer),
                args: bases1(BaseType::String),
                required: 1,
            },
        ),
        Function::Now => Some(
            Signature {
                result: Type::Base(BaseType::DateTime),
                args: bases1(BaseType::Integer),
                required: 0,
            },
        ),
        Function::CurDate => Some(
            Signature { result: Type::Base(BaseType::Date), args: Vec::new(), required: 0 },
        ),
        Function::CurrentTimestamp => Some(
            Signature {
                result: Type::Base(BaseType::TimeStamp),
                args: bases1(BaseType::Integer),
                required: 0,
            },
        ),
        Function::DateFormat => Some(
            Signature {
                result: Type::Base(BaseType::String),
                args: bases3(BaseType::DateTime, BaseType::String, BaseType::String),
                required: 2,
            },
        ),
        _ => None,
    }
}

/// One fragment for each argument beyond the first `max`.
pub open spec fn surplus_fragments(max: usize, args: Seq<Expression>) -> Seq<FragmentView> {
    Seq::new(
        (args.len() - max) as nat,
        |k: int|
            FragmentView {
                message: MessageView::Argument((max + k) as usize),
                span: args[max + k].spec_span(),
            },
    )
}

/// The error for a call at `span` with a wrong number of arguments, where
/// `min` to `max` are allowed.
pub open spec fn arity_issue(
    min: usize,
    max: usize,
    args: Seq<Expression>,
    span: Span,
) -> IssueView {
    IssueView {
        level: Level::Error,
        message: if min >= max {
            MessageView::ExpectedArguments { expected: min, given: args.len() as usize }
        } else {
            MessageView::ExpectedArgumentsBetween { min, max, given: args.len() as usize }
        },
        span,
        fragments: if args.len() > max {
            surplus_fragments(max, args)
        } else {
            Seq::empty()
        },
    }
}

/// The effects of checking the number of arguments of a call: nothing where
/// it lies between `min` and `max`, else one error.
pub open spec fn arity_effects(
    min: usize,
    max: usize,
    args: Seq<Expression>,
    span: Span,
) -> Effects {
    if min <= args.len() <= max {
        Effects::none()
    } else {
        Effects::issue(arity_issue(min, max, args, span))
    }
}

/// A call with at least `min` and at most `max` arguments raises nothing.
/// Any other call raises exactly one error, which has one fragment for each
/// argument beyond `max`.
pub proof fn lemma_arity(min: usize, max: usize, args: Seq<Expression>, span: Span)
    ensures
        min <= args.len() <= max ==> arity_effects(min, max, args, span) == Effects::none(),
        !(min <= args.len() <= max) ==> {
            let e = arity_effects(min, max, args, span);
            &&& e.constraints.len() == 0
            &&& e.issues.len() == 1
            &&& e.issues[0].level == Level::Error
            &&& e.issues[0].span == span
            &&& e.issues[0].fragments.len() == if args.len() > max {
                args.len() - max
            } else {
                0
            }
        },
{
}

/// The types of the first `n` arguments, each typed without an expectation.
pub struct TypedArgs {
    pub effects: Effects,
    pub types: Seq<FullTypeView>,
}

/// Types the first `n` of `args` in order, expecting nothing of them.
pub open spec fn args_types(
    env: Env,
    args: Seq<Expression>,
    flags: ExpressionFlags,
    n: nat,
) -> TypedArgs
    decreases args, n,
{
    if n == 0 || n > args.len() {
        TypedArgs { effects: Effects::none(), types: Seq::empty() }
    } else {
        let before = args_types(env, args, flags, (n - 1) as nat);
        let arg = expression_type(env, args[n - 1], flags, BaseType::Any);
        TypedArgs {
            effects: before.effects.chain(arg.effects),
            types: before.types.push(arg.t),
        }
    }
}

/// Every argument is typed exactly once, in order and with nothing expected
/// of it: there is one type for each argument, which is the type of that
/// argument, typed with the references in scope that the call has.
pub proof fn lemma_args_types(env: Env, args: Seq<Expression>, flags: ExpressionFlags, n: nat)
    requires
        n <= args.len(),
    ensures
        args_types(env, args, flags, n).types.len() == n,
        forall|i: int|
            0 <= i < n ==> (#[trigger] args_types(env, args, flags, n).types[i]) == expression_type(
                env,
                args[i],
                flags,
                BaseType::Any,
            ).t,
        n > 0 ==> args_types(env, args, flags, n).effects == args_types(
            env,
            args,
            flags,
            (n - 1) as nat,
        ).effects.chain(expression_type(env, args[n - 1], flags, BaseType::Any).effects),
    decreases n,
{
    if n > 0 {
        lemma_args_types(env, args, flags, (n - 1) as nat);
    }
}

/// What typing arguments against a signature yields.
pub struct DeclaredArgs {
    pub effects: Effects,
    /// Whether none of the arguments that the signature describes can be `NULL`.
    pub not_null: bool,
}

/// Types the first `n` of `args` in order against the categories `expected`:
/// an argument that has a category there is typed with that expectation and
/// checked against it; one beyond them is typed without an expectation.
pub open spec fn declared_args(
    env: Env,
    args: Seq<Expression>,
    expected: Seq<BaseType>,
    flags: ExpressionFlags,
    n: nat,
) -> DeclaredArgs
    decreases args, n,
{
    if n == 0 || n > args.len() {
        DeclaredArgs { effects: Effects::none(), not_null: true }
    } else {
        let before = declared_args(env, args, expected, flags, (n - 1) as nat);
        if n <= expected.len() {
            let arg = expression_type(env, args[n - 1], flags, expected[n - 1]);
            DeclaredArgs {
                effects: before.effects.chain(arg.effects).chain(
                    ensure_base_effects(args[n - 1].spec_span(), arg.t.t, expected[n - 1]),
                ),
                not_null: before.not_null && arg.t.not_null,
            }
        } else {
            let arg = expression_type(env, args[n - 1], flags, BaseType::Any);
            DeclaredArgs { effects: before.effects.chain(arg.effects), not_null: before.not_null }
        }
    }
}

/// Whether none of `types` is nullable.
pub open spec fn all_not_null(types: Seq<FullTypeView>) -> bool {
    forall|i: int| 0 <= i < types.len() ==> (#[trigger] types[i]).not_null
}

/// Whether the argument at position `i` of a JSON function is checked to be
/// a string: every argument where `paths_only` is false, else the first and
/// those at odd positions.
pub open spec fn checked_as_string(paths_only: bool, i: int) -> bool {
    !paths_only || i == 0 || i % 2 == 1
}

/// The effects of checking the first `n` arguments of a JSON function.
pub open spec fn string_checks(
    args: Seq<Expression>,
    types: Seq<FullTypeView>,
    paths_only: bool,
    n: nat,
) -> Effects
    decreases n,
{
    if n == 0 || n > args.len() || n > types.len() {
        Effects::none()
    } else {
        string_checks(args, types, paths_only, (n - 1) as nat).chain_if(
            checked_as_string(paths_only, n - 1),
            ensure_base_effects(args[n - 1].spec_span(), types[n - 1].t, BaseType::String),
        )
    }
}

/// The error for two operands at `s1` and `s2` whose types `t1` and `t2` do
/// not unify.
pub open spec fn incompatible(
    message: MessageView,
    span: Span,
    t1: TypeView,
    s1: Span,
    t2: TypeView,
    s2: Span,
) -> IssueView {
    IssueView::err(message, span).frag(MessageView::OfType(t1), s1).frag(MessageView::OfType(t2), s2)
}

/// The error for an argument of `LEAST` or `GREATEST` at `s2` whose type
/// `t2` does not unify with what the arguments before it have in common; it
/// cites the type `t1` of the first argument, at `s1`, beside it.
pub open spec fn none_matching(
    span: Span,
    t1: TypeView,
    s1: Span,
    t2: TypeView,
    s2: Span,
) -> IssueView {
    IssueView::err(MessageView::NoneMatchingInputTypes, span).frag(MessageView::TypeIs(t1), s1).frag(
        MessageView::TypeIs(t2),
        s2,
    )
}

/// The state of folding the arguments of `LEAST` or `GREATEST`.
pub struct LeastFold {
    pub effects: Effects,
    /// The type that the arguments so far have in common.
    pub t: TypeView,
}

/// Folds the first `n` arguments of `LEAST` or `GREATEST`: each further
/// argument that differs from the type so far is unified with it, and a
/// failure is reported with the types of the first argument and of this one.
pub open spec fn least_fold(
    args: Seq<Expression>,
    types: Seq<FullTypeView>,
    span: Span,
    n: nat,
) -> LeastFold
    decreases n,
{
    if n <= 1 || n > args.len() || n > types.len() {
        LeastFold {
            effects: Effects::none(),
            t: if types.len() > 0 {
                types[0].t
            } else {
                TypeView::Invalid
            },
        }
    } else {
        let before = least_fold(args, types, span, (n - 1) as nat);
        let t = types[n - 1].t;
        if t == before.t {
            before
        } else {
            LeastFold {
                effects: before.effects.chain(
                    unify_effects(
                        t,
                        before.t,
                        none_matching(
                            span,
                            types[0].t,
                            args[0].spec_span(),
                            t,
                            args[n - 1].spec_span(),
                        ),
                    ),
                ),
                t: match unify(t, before.t) {
                    Some(u) => u,
                    None => before.t,
                },
            }
        }
    }
}

/// `UNIX_TIMESTAMP([datetime])` is a 64-bit integer.
pub open spec fn unix_timestamp_rule(
    args: Seq<Expression>,
    types: Seq<FullTypeView>,
    span: Span,
) -> Typed {
    Typed {
        effects: arity_effects(0, 1, args, span).chain_if(
            types.len() > 0,
            ensure_base_effects(args[0].spec_span(), types[0].t, BaseType::DateTime),
        ),
        t: FullTypeView::new(TypeView::I64, types.len() > 0 ==> types[0].not_null),
    }
}

/// `IFNULL(a, b)` has the type of `b`, which must fit that of `a`. A first
/// argument that is never `NULL` is worth a warning.
pub open spec fn if_null_rule(
    args: Seq<Expression>,
    types: Seq<FullTypeView>,
    span: Span,
) -> Typed {
    let first = if types.len() > 0 {
        types[0]
    } else {
        FullTypeView::invalid()
    };
    Typed {
        effects: arity_effects(2, 2, args, span).chain_issue_if(
            types.len() > 0 && types[0].not_null,
            IssueView::warn(MessageView::CannotBeNull, args[0].spec_span()),
        ).chain_if(
            types.len() > 1,
            ensure_type_effects(args[1].spec_span(), types[1].t, first.t),
        ),
        t: if types.len() > 1 {
            types[1]
        } else {
            first
        },
    }
}

/// The functions that read or change a JSON document take at least `min`
/// arguments and yield nullable JSON.
pub open spec fn json_rule(
    args: Seq<Expression>,
    types: Seq<FullTypeView>,
    span: Span,
    min: usize,
    paths_only: bool,
) -> Typed {
    Typed {
        effects: arity_effects(min, 999, args, span).chain(
            string_checks(args, types, paths_only, args.len()),
        ),
        t: FullTypeView::new(TypeView::JSON, false),
    }
}

/// `JSON_UNQUOTE(s)` takes one string and yields a string that is not `NULL`.
pub open spec fn json_unquote_rule(
    args: Seq<Expression>,
    types: Seq<FullTypeView>,
    span: Span,
) -> Typed {
    Typed {
        effects: arity_effects(1, 1, args, span).chain(
            string_checks(args, types, false, args.len()),
        ),
        t: FullTypeView::new(TypeView::Base(BaseType::String), true),
    }
}

/// `MIN`, `MAX` and `SUM` have the type of their argument, but nullable: an
/// aggregate over no rows is `NULL`.
pub open spec fn aggregate_rule(
    args: Seq<Expression>,
    types: Seq<FullTypeView>,
    span: Span,
) -> Typed {
    Typed {
        effects: arity_effects(1, 1, args, span),
        t: if types.len() > 0 {
            FullTypeView { not_null: false, ..types[0] }
        } else {
            FullTypeView::invalid()
        },
    }
}

/// `CONCAT` takes anything and yields a string.
pub open spec fn concat_rule(types: Seq<FullTypeView>) -> Typed {
    Typed::pure(
        FullTypeView::new(TypeView::Base(BaseType::String), all_not_null(types)),
    )
}

/// `LEAST` and `GREATEST` take arguments that unify pairwise. The result is
/// typed as a nullable wildcard, whatever the arguments are: the type that
/// the arguments unify to is not used for it.
pub open spec fn least_rule(args: Seq<Expression>, types: Seq<FullTypeView>, span: Span) -> Typed {
    Typed {
        effects: arity_effects(1, 9999, args, span).chain(
            least_fold(args, types, span, args.len()).effects,
        ),
        t: FullTypeView::new(TypeView::Base(BaseType::Any), false),
    }
}

/// `IF(c, a, b)` takes a condition and two branches that unify, and has
/// their unified type.
pub open spec fn if_rule(args: Seq<Expression>, types: Seq<FullTypeView>, span: Span) -> Typed {
    let checked = arity_effects(3, 3, args, span).chain_if(
        types.len() > 0,
        ensure_base_effects(args[0].spec_span(), types[0].t, BaseType::Bool),
    );
    if types.len() > 2 {
        Typed {
            effects: checked.chain(
                unify_effects(
                    types[1].t,
                    types[2].t,
                    incompatible(
                        MessageView::IncompatibleTypes,
                        span,
                        types[1].t,
                        args[1].spec_span(),
                        types[2].t,
                        args[2].spec_span(),
                    ),
                ),
            ),
            t: match unify(types[1].t, types[2].t) {
                Some(t) => FullTypeView::new(
                    t,
                    types[0].not_null && types[1].not_null && types[2].not_null,
                ),
                None => FullTypeView::invalid(),
            },
        }
    } else {
        Typed { effects: checked, t: FullTypeView::invalid() }
    }
}

/// `FROM_UNIXTIME(ts[, format])` is a date and time, or a string where a
/// format is given.
pub open spec fn from_unix_time_rule(
    args: Seq<Expression>,
    types: Seq<FullTypeView>,
    span: Span,
) -> Typed {
    Typed {
        effects: arity_effects(1, 2, args, span).chain_if(
            types.len() > 0,
            ensure_base_effects(args[0].spec_span(), types[0].t, BaseType::Float),
        ).chain_if(
            types.len() > 1,
            ensure_base_effects(args[1].spec_span(), types[1].t, BaseType::String),
        ),
        t: if types.len() > 1 {
            FullTypeView::new(
                TypeView::Base(BaseType::String),
                types[0].not_null && types[1].not_null,
            )
        } else {
            FullTypeView::new(
                TypeView::Base(BaseType::DateTime),
                types.len() > 0 ==> types[0].not_null,
            )
        },
    }
}

/// `VALUE(x)` has the type of `x`, and is an error outside of
/// `ON DUPLICATE KEY UPDATE`.
pub open spec fn value_rule(
    args: Seq<Expression>,
    types: Seq<FullTypeView>,
    span: Span,
    flags: ExpressionFlags,
) -> Typed {
    Typed {
        effects: Effects::none().chain_issue_if(
            !flags.in_on_duplicate_key_update,
            IssueView::err(MessageView::ValueOutsideOnDuplicateKeyUpdate, span),
        ).chain(arity_effects(1, 1, args, span)),
        t: if types.len() > 0 {
            types[0]
        } else {
            FullTypeView::invalid()
        },
    }
}

/// The rule of a function that has no signature, applied to arguments that
/// were typed already. A function that the typer does not know is an error.
pub open spec fn custom_rule(
    func: Function,
    args: Seq<Expression>,
    types: Seq<FullTypeView>,
    span: Span,
    flags: ExpressionFlags,
) -> Typed {
    match func {
        Function::UnixTimestamp => unix_timestamp_rule(args, types, span),
        Function::IfNull => if_null_rule(args, types, span),
        Function::JsonExtract | Function::JsonValue => json_rule(args, types, span, 2, false),
        Function::JsonReplace | Function::JsonSet => json_rule(args, types, span, 3, true),
        Function::JsonUnquote => json_unquote_rule(args, types, span),
        Function::Min | Function::Max | Function::Sum => aggregate_rule(args, types, span),
        Function::Concat => concat_rule(types),
        Function::Least | Function::Greatest => least_rule(args, types, span),
        Function::If => if_rule(args, types, span),
        Function::FromUnixTime => from_unix_time_rule(args, types, span),
        Function::Value => value_rule(args, types, span, flags),
        _ => Typed::failed(IssueView::err(MessageView::FunctionNotImplemented, span)),
    }
}

/// The type of the call of `func` on `args` at `span`, and what typing it
/// does to the context.
///
/// A function with a signature has the number of its arguments checked
/// first, and then its arguments typed and checked one by one. For the
/// others all arguments are typed first, and then the function's rule is
/// applied to their types.
pub open spec fn function_type(
    env: Env,
    func: Function,
    args: Seq<Expression>,
    span: Span,
    flags: ExpressionFlags,
) -> Typed
    decreases args, args.len() + 1,
{
    match signature(func) {
        Some(sig) => {
            let typed = declared_args(env, args, sig.args, flags, args.len());
            Typed {
                effects: arity_effects(sig.required, sig.args.len() as usize, args, span).chain(
                    typed.effects,
                ),
                t: FullTypeView::new(sig.result, typed.not_null),
            }
        },
        None => {
            let typed = args_types(env, args, flags, args.len());
            let rule = custom_rule(func, args, typed.types, span, flags);
            Typed { effects: typed.effects.chain(rule.effects), t: rule.t }
        },
    }
}

/// `MIN`, `MAX` and `SUM` are nullable whatever their argument is.
pub proof fn lemma_aggregate_nullable(
    env: Env,
    func: Function,
    args: Seq<Expression>,
    span: Span,
    flags: ExpressionFlags,
)
    requires
        func == Function::Min || func == Function::Max || func == Function::Sum,
    ensures
        !function_type(env, func, args, span, flags).t.not_null,
{
}

/// `IF` with a boolean condition and two branches whose types do not unify
/// raises exactly one error, which cites the types of both branches, and
/// yields the error marker.
pub proof fn lemma_if_incompatible(args: Seq<Expression>, types: Seq<FullTypeView>, span: Span)
    requires
        args.len() == 3,
        types.len() == 3,
        unify(types[0].t, TypeView::Base(BaseType::Bool)) is Some,
        unify(types[1].t, types[2].t) is None,
    ensures
        if_rule(args, types, span).t == FullTypeView::invalid(),
        if_rule(args, types, span).effects.issues == seq![
            incompatible(
                MessageView::IncompatibleTypes,
                span,
                types[1].t,
                args[1].spec_span(),
                types[2].t,
                args[2].spec_span(),
            ),
        ],
{
    assert(if_rule(args, types, span).effects.issues =~= seq![
        incompatible(
            MessageView::IncompatibleTypes,
            span,
            types[1].t,
            args[1].spec_span(),
            types[2].t,
            args[2].spec_span(),
        ),
    ]);
}

/// A call of a function with a signature raises its first diagnostic for a
/// wrong number of arguments, and only then those of its arguments.
pub proof fn lemma_signature_arity(
    env: Env,
    func: Function,
    args: Seq<Expression>,
    span: Span,
    flags: ExpressionFlags,
)
    requires
        signature(func) is Some,
    ensures
        ({
            let sig = signature(func).unwrap();
            let max = sig.args.len() as usize;
            let typed = declared_args(env, args, sig.args, flags, args.len());
            let issues = function_type(env, func, args, span, flags).effects.issues;
            &&& sig.required <= args.len() <= max ==> issues == typed.effects.issues
            &&& !(sig.required <= args.len() <= max) ==> issues == seq![
                arity_issue(sig.required, max, args, span),
            ] + typed.effects.issues
        }),
{
    let sig = signature(func).unwrap();
    let typed = declared_args(env, args, sig.args, flags, args.len());
    assert(Seq::<IssueView>::empty() + typed.effects.issues =~= typed.effects.issues);
}

/// Checks that a call at `span` has at least `min` and at most `max`
/// arguments, and raises one error where it has not.
pub fn arg_cnt(typer: &mut Typer, min: usize, max: usize, args: &Vec<Expression>, span: Span)
    ensures
        final(typer)@ == old(typer)@.apply(arity_effects(min, max, args@, span)),
{
    if args.len() >= min && args.len() <= max {
        proof {
            lemma_apply_none(old(typer)@);
        }
        return ;
    }
    let message = if min >= max {
        Message::ExpectedArguments { expected: min, given: args.len() }
    } else {
        Message::ExpectedArgumentsBetween { min, max, given: args.len() }
    };
    let mut issue = Issue::err(message, span);
    if args.len() > max {
        let ghost frags = surplus_fragments(max, args@);
        let mut i: usize = max;
        while i < args.len()
            invariant
                max <= i <= args@.len(),
                frags == surplus_fragments(max, args@),
                issue@.level == Level::Error,
                issue@.message == message@,
                issue@.span == span,
                issue@.fragments == frags.take(i - max),
            decreases args@.len() - i,
        {
            issue = issue.frag(Message::Argument(i), args[i].span());
            assert(issue@.fragments =~= frags.take(i + 1 - max));
            i += 1;
        }
        assert(issue@.fragments =~= frags);
    }
    typer.add_issue(issue);
}

/// Types every argument in order, expecting nothing of them.
pub fn typed_args(typer: &mut Typer, args: &Vec<Expression>, flags: ExpressionFlags) -> (r: Vec<
    FullType,
>)
    ensures
        final(typer)@ == old(typer)@.apply(
            args_types(old(typer)@.env(), args@, flags, args@.len()).effects,
        ),
        r.deep_view() == args_types(old(typer)@.env(), args@, flags, args@.len()).types,
        r@.len() == args@.len(),
    decreases args, 0nat,
{
    let ghost start = typer@;
    let ghost env = typer@.env();
    let mut types: Vec<FullType> = Vec::new();
    let mut i: usize = 0;
    proof {
        lemma_apply_none(start);
        assert(types.deep_view() =~= Seq::empty());
    }
    while i < args.len()
        invariant
            i <= args@.len(),
            env == start.env(),
            typer@ == start.apply(args_types(env, args@, flags, i as nat).effects),
            types.deep_view() == args_types(env, args@, flags, i as nat).types,
            types@.len() == i,
        decreases args@.len() - i,
    {
        let ghost mid = typer@;
        let ghost before = types;
        let t = type_expression(typer, &args[i], flags, BaseType::Any);
        types.push(t);
        proof {
            lemma_deep_view_push(before, types, t);
            lemma_advance(
                start,
                args_types(env, args@, flags, i as nat).effects,
                mid,
                expression_type(env, args@[i as int], flags, BaseType::Any).effects,
            );
        }
        i += 1;
    }
    types
}

/// Types every argument in order against the categories `expected`.
/// Returns whether none of the arguments that have a category there can be
/// `NULL`.
pub fn typed_declared_args(
    typer: &mut Typer,
    args: &Vec<Expression>,
    expected: &Vec<BaseType>,
    flags: ExpressionFlags,
) -> (r: bool)
    ensures
        final(typer)@ == old(typer)@.apply(
            declared_args(old(typer)@.env(), args@, expected@, flags, args@.len()).effects,
        ),
        r == declared_args(old(typer)@.env(), args@, expected@, flags, args@.len()).not_null,
    decreases args, 0nat,
{
    let ghost start = typer@;
    let ghost env = typer@.env();
    let mut not_null = true;
    let mut i: usize = 0;
    proof {
        lemma_apply_none(start);
    }
    while i < args.len()
        invariant
            i <= args@.len(),
            env == start.env(),
            typer@ == start.apply(declared_args(env, args@, expected@, flags, i as nat).effects),
            not_null == declared_args(env, args@, expected@, flags, i as nat).not_null,
        decreases args@.len() - i,
    {
        let ghost mid = typer@;
        let ghost done = declared_args(env, args@, expected@, flags, i as nat).effects;
        if i < expected.len() {
            let base = expected[i];
            let t = type_expression(typer, &args[i], flags, base);
            let ghost typed = expression_type(env, args@[i as int], flags, base).effects;
            let ghost mid2 = typer@;
            proof {
                lemma_advance(start, done, mid, typed);
            }
            not_null = not_null && t.not_null;
            typer.ensure_base(args[i].span(), &t, base);
            proof {
                lemma_advance(
                    start,
                    done.chain(typed),
                    mid2,
                    ensure_base_effects(args@[i as int].spec_span(), t@.t, base),
                );
            }
        } else {
            let _ = type_expression(typer, &args[i], flags, BaseType::Any);
            proof {
                lemma_advance(
                    start,
                    done,
                    mid,
                    expression_type(env, args@[i as int], flags, BaseType::Any).effects,
                );
            }
        }
        i += 1;
    }
    not_null
}

/// Whether all of `types` are not nullable.
fn types_not_null(types: &Vec<FullType>) -> (r: bool)
    ensures
        r == all_not_null(types.deep_view()),
{
    let ghost tv = types.deep_view();
    let mut i: usize = 0;
    while i < types.len()
        invariant
            i <= types@.len(),
            tv == types.deep_view(),
            forall|j: int| 0 <= j < i ==> (#[trigger] tv[j]).not_null,
        decreases types@.len() - i,
    {
        assert(tv[i as int] == types@[i as int]@);
        if !types[i].not_null {
            return false;
        }
        i += 1;
    }
    true
}

/// Checks the arguments of a JSON function that must be strings.
fn check_strings(typer: &mut Typer, args: &Vec<Expression>, types: &Vec<FullType>, paths_only: bool)
    requires
        types@.len() == args@.len(),
    ensures
        final(typer)@ == old(typer)@.apply(
            string_checks(args@, types.deep_view(), paths_only, args@.len()),
        ),
{
    let ghost start = typer@;
    let ghost tv = types.deep_view();
    let mut i: usize = 0;
    proof {
        lemma_apply_none(start);
    }
    while i < args.len()
        invariant
            i <= args@.len(),
            types@.len() == args@.len(),
            tv == types.deep_view(),
            typer@ == start.apply(string_checks(args@, tv, paths_only, i as nat)),
        decreases args@.len() - i,
    {
        let ghost mid = typer@;
        if !paths_only || i == 0 || i % 2 == 1 {
            typer.ensure_base(args[i].span(), &types[i], BaseType::String);
            proof {
                lemma_advance(
                    start,
                    string_checks(args@, tv, paths_only, i as nat),
                    mid,
                    ensure_base_effects(args@[i as int].spec_span(), tv[i as int].t, BaseType::String),
                );
            }
        }
        i += 1;
    }
}

/// The error for two operands whose types do not unify.
pub fn incompatible_issue(
    message: Message,
    span: Span,
    t1: &Type,
    s1: Span,
    t2: &Type,
    s2: Span,
) -> (r: Issue)
    ensures
        r@ == incompatible(message@, span, t1@, s1, t2@, s2),
{
    Issue::err(message, span).frag(Message::OfType(t1.ref_clone()), s1).frag(
        Message::OfType(t2.ref_clone()),
        s2,
    )
}

fn rule_unix_timestamp(
    typer: &mut Typer,
    args: &Vec<Expression>,
    types: &Vec<FullType>,
    span: Span,
) -> (r: FullType)
    requires
        types@.len() == args@.len(),
    ensures
        final(typer)@ == old(typer)@.apply(
            unix_timestamp_rule(args@, types.deep_view(), span).effects,
        ),
        r@ == unix_timestamp_rule(args@, types.deep_view(), span).t,
{
    arg_cnt(typer, 0, 1, args, span);
    let ghost mid = typer@;
    let mut not_null = true;
    if types.len() > 0 {
        not_null = types[0].not_null;
        typer.ensure_base(args[0].span(), &types[0], BaseType::DateTime);
        proof {
            lemma_advance(
                old(typer)@,
                arity_effects(0, 1, args@, span),
                mid,
                ensure_base_effects(args@[0].spec_span(), types.deep_view()[0].t, BaseType::DateTime),
            );
        }
    }
    FullType::new(Type::I64, not_null)
}

fn rule_if_null(
    typer: &mut Typer,
    args: &Vec<Expression>,
    types: &Vec<FullType>,
    span: Span,
) -> (r: FullType)
    requires
        types@.len() == args@.len(),
    ensures
        final(typer)@ == old(typer)@.apply(if_null_rule(args@, types.deep_view(), span).effects),
        r@ == if_null_rule(args@, types.deep_view(), span).t,
{
    let ghost start = typer@;
    let ghost tv = types.deep_view();
    arg_cnt(typer, 2, 2, args, span);
    let ghost e0 = arity_effects(2, 2, args@, span);
    let ghost mid = typer@;
    let first = if types.len() > 0 {
        if types[0].not_null {
            typer.add_issue(Issue::warn(Message::CannotBeNull, args[0].span()));
            proof {
                lemma_advance(
                    start,
                    e0,
                    mid,
                    Effects::issue(IssueView::warn(MessageView::CannotBeNull, args@[0].spec_span())),
                );
            }
        }
        types[0].ref_clone()
    } else {
        FullType::invalid()
    };
    let ghost e1 = e0.chain_issue_if(
        tv.len() > 0 && tv[0].not_null,
        IssueView::warn(MessageView::CannotBeNull, args@[0].spec_span()),
    );
    let ghost mid1 = typer@;
    assert(mid1 == start.apply(e1));
    if types.len() > 1 {
        typer.ensure_type(args[1].span(), &types[1], &first);
        proof {
            lemma_advance(
                start,
                e1,
                mid1,
                ensure_type_effects(args@[1].spec_span(), tv[1].t, first@.t),
            );
        }
        types[1].ref_clone()
    } else {
        first
    }
}

fn rule_json(
    typer: &mut Typer,
    args: &Vec<Expression>,
    types: &Vec<FullType>,
    span: Span,
    min: usize,
    paths_only: bool,
) -> (r: FullType)
    requires
        types@.len() == args@.len(),
    ensures
        final(typer)@ == old(typer)@.apply(
            json_rule(args@, types.deep_view(), span, min, paths_only).effects,
        ),
        r@ == json_rule(args@, types.deep_view(), span, min, paths_only).t,
{
    arg_cnt(typer, min, 999, args, span);
    let ghost mid = typer@;
    check_strings(typer, args, types, paths_only);
    proof {
        lemma_advance(
            old(typer)@,
            arity_effects(min, 999, args@, span),
            mid,
            string_checks(args@, types.deep_view(), paths_only, args@.len()),
        );
    }
    FullType::new(Type::JSON, false)
}

fn rule_json_unquote(
    typer: &mut Typer,
    args: &Vec<Expression>,
    types: &Vec<FullType>,
    span: Span,
) -> (r: FullType)
    requires
        types@.len() == args@.len(),
    ensures
        final(typer)@ == old(typer)@.apply(
            json_unquote_rule(args@, types.deep_view(), span).effects,
        ),
        r@ == json_unquote_rule(args@, types.deep_view(), span).t,
{
    arg_cnt(typer, 1, 1, args, span);
    let ghost mid = typer@;
    check_strings(typer, args, types, false);
    proof {
        lemma_advance(
            old(typer)@,
            arity_effects(1, 1, args@, span),
            mid,
            string_checks(args@, types.deep_view(), false, args@.len()),
        );
    }
    FullType::new(Type::Base(BaseType::String), true)
}

fn rule_aggregate(
    typer: &mut Typer,
    args: &Vec<Expression>,
    types: &Vec<FullType>,
    span: Span,
) -> (r: FullType)
    requires
        types@.len() == args@.len(),
    ensures
        final(typer)@ == old(typer)@.apply(aggregate_rule(args@, types.deep_view(), span).effects),
        r@ == aggregate_rule(args@, types.deep_view(), span).t,
{
    arg_cnt(typer, 1, 1, args, span);
    if types.len() > 0 {
        let mut t = types[0].ref_clone();
        t.not_null = false;
        t
    } else {
        FullType::invalid()
    }
}

fn rule_least(
    typer: &mut Typer,
    args: &Vec<Expression>,
    types: &Vec<FullType>,
    span: Span,
) -> (r: FullType)
    requires
        types@.len() == args@.len(),
    ensures
        final(typer)@ == old(typer)@.apply(least_rule(args@, types.deep_view(), span).effects),
        r@ == least_rule(args@, types.deep_view(), span).t,
{
    let ghost tv = types.deep_view();
    arg_cnt(typer, 1, 9999, args, span);
    let ghost mid = typer@;
    proof {
        lemma_apply_none(mid);
    }
    if types.len() > 0 {
        let mut t = types[0].t.ref_clone();
        let mut i: usize = 1;
        while i < types.len()
            invariant
                1 <= i <= types@.len(),
                types@.len() == args@.len(),
                tv == types.deep_view(),
                typer@ == mid.apply(least_fold(args@, tv, span, i as nat).effects),
                t@ == least_fold(args@, tv, span, i as nat).t,
            decreases types@.len() - i,
        {
            let ghost cur = typer@;
            if !types[i].t.same(&t) {
                let issue = Issue::err(Message::NoneMatchingInputTypes, span).frag(
                    Message::TypeIs(types[0].t.ref_clone()),
                    args[0].span(),
                ).frag(Message::TypeIs(types[i].t.ref_clone()), args[i].span());
                let unified = typer.matched_or(&types[i].t, &t, issue);
                proof {
                    lemma_advance(
                        mid,
                        least_fold(args@, tv, span, i as nat).effects,
                        cur,
                        unify_effects(tv[i as int].t, t@, issue@),
                    );
                }
                match unified {
                    Some(u) => {
                        t = u;
                    },
                    None => {},
                }
            }
            i += 1;
        }
    }
    proof {
        lemma_advance(
            old(typer)@,
            arity_effects(1, 9999, args@, span),
            mid,
            least_fold(args@, tv, span, args@.len()).effects,
        );
    }
    FullType::new(Type::Base(BaseType::Any), false)
}

fn rule_if(
    typer: &mut Typer,
    args: &Vec<Expression>,
    types: &Vec<FullType>,
    span: Span,
) -> (r: FullType)
    requires
        types@.len() == args@.len(),
    ensures
        final(typer)@ == old(typer)@.apply(if_rule(args@, types.deep_view(), span).effects),
        r@ == if_rule(args@, types.deep_view(), span).t,
{
    let ghost start = typer@;
    let ghost tv = types.deep_view();
    arg_cnt(typer, 3, 3, args, span);
    let ghost e0 = arity_effects(3, 3, args@, span);
    let ghost mid = typer@;
    if types.len() > 0 {
        typer.ensure_base(args[0].span(), &types[0], BaseType::Bool);
        proof {
            lemma_advance(
                start,
                e0,
                mid,
                ensure_base_effects(args@[0].spec_span(), tv[0].t, BaseType::Bool),
            );
        }
    }
    let ghost e1 = e0.chain_if(
        tv.len() > 0,
        ensure_base_effects(args@[0].spec_span(), tv[0].t, BaseType::Bool),
    );
    let ghost mid1 = typer@;
    assert(mid1 == start.apply(e1));
    if types.len() > 2 {
        let issue = incompatible_issue(
            Message::IncompatibleTypes,
            span,
            &types[1].t,
            args[1].span(),
            &types[2].t,
            args[2].span(),
        );
        let unified = typer.matched_or(&types[1].t, &types[2].t, issue);
        proof {
            lemma_advance(start, e1, mid1, unify_effects(tv[1].t, tv[2].t, issue@));
        }
        match unified {
            Some(t) => FullType::new(
                t,
                types[0].not_null && types[1].not_null && types[2].not_null,
            ),
            None => FullType::invalid(),
        }
    } else {
        FullType::invalid()
    }
}

fn rule_from_unix_time(
    typer: &mut Typer,
    args: &Vec<Expression>,
    types: &Vec<FullType>,
    span: Span,
) -> (r: FullType)
    requires
        types@.len() == args@.len(),
    ensures
        final(typer)@ == old(typer)@.apply(
            from_unix_time_rule(args@, types.deep_view(), span).effects,
        ),
        r@ == from_unix_time_rule(args@, types.deep_view(), span).t,
{
    let ghost start = typer@;
    let ghost tv = types.deep_view();
    arg_cnt(typer, 1, 2, args, span);
    let ghost e0 = arity_effects(1, 2, args@, span);
    let ghost mid = typer@;
    let mut not_null = true;
    if types.len() > 0 {
        not_null = types[0].not_null;
        typer.ensure_base(args[0].span(), &types[0], BaseType::Float);
        proof {
            lemma_advance(
                start,
                e0,
                mid,
                ensure_base_effects(args@[0].spec_span(), tv[0].t, BaseType::Float),
            );
        }
    }
    let ghost e1 = e0.chain_if(
        tv.len() > 0,
        ensure_base_effects(args@[0].spec_span(), tv[0].t, BaseType::Float),
    );
    let ghost mid1 = typer@;
    assert(mid1 == start.apply(e1));
    if types.len() > 1 {
        not_null = not_null && types[1].not_null;
        typer.ensure_base(args[1].span(), &types[1], BaseType::String);
        proof {
            lemma_advance(
                start,
                e1,
                mid1,
                ensure_base_effects(args@[1].spec_span(), tv[1].t, BaseType::String),
            );
        }
        FullType::new(Type::Base(BaseType::String), not_null)
    } else {
        FullType::new(Type::Base(BaseType::DateTime), not_null)
    }
}

fn rule_value(
    typer: &mut Typer,
    args: &Vec<Expression>,
    types: &Vec<FullType>,
    span: Span,
    flags: ExpressionFlags,
) -> (r: FullType)
    requires
        types@.len() == args@.len(),
    ensures
        final(typer)@ == old(typer)@.apply(value_rule(args@, types.deep_view(), span, flags).effects),
        r@ == value_rule(args@, types.deep_view(), span, flags).t,
{
    let ghost start = typer@;
    proof {
        lemma_apply_none(start);
    }
    if !flags.in_on_duplicate_key_update {
        typer.add_issue(Issue::err(Message::ValueOutsideOnDuplicateKeyUpdate, span));
        proof {
            lemma_advance(
                start,
                Effects::none(),
                start,
                Effects::issue(
                    IssueView::err(MessageView::ValueOutsideOnDuplicateKeyUpdate, span),
                ),
            );
        }
    }
    let ghost e0 = Effects::none().chain_issue_if(
        !flags.in_on_duplicate_key_update,
        IssueView::err(MessageView::ValueOutsideOnDuplicateKeyUpdate, span),
    );
    let ghost mid = typer@;
    assert(mid == start.apply(e0));
    arg_cnt(typer, 1, 1, args, span);
    proof {
        lemma_advance(start, e0, mid, arity_effects(1, 1, args@, span));
    }
    if types.len() > 0 {
        types[0].ref_clone()
    } else {
        FullType::invalid()
    }
}

/// Applies the rule of a function that has no signature to arguments that
/// were typed already: `types` holds the type of each of `args`.
pub fn apply_custom_rule(
    typer: &mut Typer,
    func: Function,
    args: &Vec<Expression>,
    types: &Vec<FullType>,
    span: Span,
    flags: ExpressionFlags,
) -> (r: FullType)
    requires
        types@.len() == args@.len(),
    ensures
        final(typer)@ == old(typer)@.apply(
            custom_rule(func, args@, types.deep_view(), span, flags).effects,
        ),
        r@ == custom_rule(func, args@, types.deep_view(), span, flags).t,
{
    match func {
        Function::UnixTimestamp => rule_unix_timestamp(typer, args, types, span),
        Function::IfNull => rule_if_null(typer, args, types, span),
        Function::JsonExtract | Function::JsonValue => rule_json(
            typer,
            args,
            types,
            span,
            2,
            false,
        ),
        Function::JsonReplace | Function::JsonSet => rule_json(typer, args, types, span, 3, true),
        Function::JsonUnquote => rule_json_unquote(typer, args, types, span),
        Function::Min | Function::Max | Function::Sum => rule_aggregate(typer, args, types, span),
        Function::Concat => {
            proof {
                lemma_apply_none(old(typer)@);
            }
            FullType::new(Type::Base(BaseType::String), types_not_null(types))
        },
        Function::Least | Function::Greatest => rule_least(typer, args, types, span),
        Function::If => rule_if(typer, args, types, span),
        Function::FromUnixTime => rule_from_unix_time(typer, args, types, span),
        Function::Value => rule_value(typer, args, types, span, flags),
        _ => {
            typer.add_issue(Issue::err(Message::FunctionNotImplemented, span));
            FullType::invalid()
        },
    }
}

/// Types the call of `func` on `args` at `span`.
///
/// Every argument is typed exactly once, also where the call has too many
/// of them or the function is unknown. `MIN`, `MAX` and `SUM` yield a
/// nullable type whatever their argument is.
pub fn type_function(
    typer: &mut Typer,
    func: Function,
    args: &Vec<Expression>,
    span: Span,
    flags: ExpressionFlags,
) -> (r: FullType)
    ensures
        final(typer)@ == old(typer)@.apply(
            function_type(old(typer)@.env(), func, args@, span, flags).effects,
        ),
        r@ == function_type(old(typer)@.env(), func, args@, span, flags).t,
        func == Function::Min || func == Function::Max || func == Function::Sum ==> !r.not_null,
    decreases args, 1nat,
{
    let ghost start = typer@;
    let ghost env = typer@.env();
    match declared_signature(func) {
        Some(sig) => {
            arg_cnt(typer, sig.required, sig.args.len(), args, span);
            let ghost mid = typer@;
            let not_null = typed_declared_args(typer, args, &sig.args, flags);
            proof {
                lemma_advance(
                    start,
                    arity_effects(sig.required, sig.args@.len() as usize, args@, span),
                    mid,
                    declared_args(env, args@, sig.args@, flags, args@.len()).effects,
                );
            }
            FullType::new(sig.result, not_null)
        },
        None => {
            let types = typed_args(typer, args, flags);
            let ghost mid = typer@;
            let r = apply_custom_rule(typer, func, args, &types, span, flags);
            proof {
                lemma_advance(
                    start,
                    args_types(env, args@, flags, args@.len()).effects,
                    mid,
                    custom_rule(func, args@, types.deep_view(), span, flags).effects,
                );
            }
            r
        },
    }
}

} // verus!
