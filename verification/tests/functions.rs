use sql_type::ast::{BinaryOperator, Expression, Function};
use sql_type::type_function::{arg_cnt, declared_signature, typed_args};
use sql_type::{
    type_function, ArgRef, ArgType, ArgumentKey, BaseType, ExpressionFlags, Fragment, FullType,
    Issue, Level, Message, Schemas, Span, SqlDialect, Type, TypeOptions, Typer,
};

const OPTIONS: TypeOptions = TypeOptions { dialect: SqlDialect::MariaDb };
const CALL: Span = Span { start: 0, end: 100 };

fn sp(start: usize, end: usize) -> Span {
    Span { start, end }
}

fn catalog() -> Schemas {
    Schemas { schemas: Vec::new() }
}

fn flags() -> ExpressionFlags {
    ExpressionFlags::new()
}

fn at(i: usize) -> Span {
    sp(10 * (i + 1), 10 * (i + 1) + 5)
}

fn null(i: usize) -> Expression {
    Expression::Null(at(i))
}

fn integer(i: usize) -> Expression {
    Expression::Integer(1, at(i))
}

fn string(i: usize) -> Expression {
    Expression::String("a".to_string(), at(i))
}

fn float(i: usize) -> Expression {
    Expression::Float(at(i))
}

fn boolean(i: usize) -> Expression {
    Expression::Bool(true, at(i))
}

fn placeholder(index: usize, i: usize) -> Expression {
    Expression::Arg(index, at(i))
}

fn nulls(n: usize) -> Vec<Expression> {
    (0..n).map(null).collect()
}

fn base(b: BaseType, not_null: bool) -> FullType {
    FullType::new(Type::Base(b), not_null)
}

fn err(message: Message, span: Span) -> Issue {
    Issue { level: Level::Error, message, span, fragments: vec![] }
}

fn frag(message: Message, span: Span) -> Fragment {
    Fragment { message, span }
}

fn call(func: Function, args: Vec<Expression>) -> (FullType, Vec<Issue>, Vec<(ArgumentKey, FullType)>) {
    let schemas = catalog();
    let mut typer = Typer::new(&schemas, &OPTIONS);
    let t = type_function(&mut typer, func, &args, CALL, flags());
    assert!(typer.reference_types.is_empty());
    (t, typer.issues, typer.arg_types)
}

fn arity_errors(issues: &[Issue]) -> usize {
    issues
        .iter()
        .filter(|i| {
            matches!(
                i.message,
                Message::ExpectedArguments { .. } | Message::ExpectedArgumentsBetween { .. }
            )
        })
        .count()
}

const DECLARED: [(Function, usize, usize); 13] = [
    (Function::Rand, 0, 1),
    (Function::Right, 2, 0),
    (Function::Left, 2, 0),
    (Function::SubStr, 2, 1),
    (Function::FindInSet, 2, 0),
    (Function::SubStringIndex, 3, 0),
    (Function::ExtractValue, 2, 0),
    (Function::Replace, 3, 0),
    (Function::CharacterLength, 1, 0),
    (Function::Now, 0, 1),
    (Function::CurDate, 0, 0),
    (Function::CurrentTimestamp, 0, 1),
    (Function::DateFormat, 2, 1),
];

#[test]
fn argument_counts_within_the_signature_raise_nothing() {
    for (func, required, optional) in DECLARED {
        let sig = declared_signature(func).expect("a function with a signature");
        assert_eq!(sig.required, required);
        assert_eq!(sig.args.len(), required + optional);
        for n in required..=required + optional {
            let (_, issues, _) = call(func, nulls(n));
            assert_eq!(issues, vec![], "{:?} with {} arguments", func, n);
        }
    }
}

#[test]
fn argument_counts_outside_the_signature_raise_one_error() {
    for (func, required, optional) in DECLARED {
        let max = required + optional;
        if required > 0 {
            let (_, issues, _) = call(func, nulls(required - 1));
            assert_eq!(arity_errors(&issues), 1, "{:?}", func);
            assert_eq!(issues.len(), 1, "{:?}", func);
            assert_eq!(issues[0].fragments, vec![]);
        }
        let (_, issues, _) = call(func, nulls(max + 1));
        assert_eq!(arity_errors(&issues), 1, "{:?}", func);
        assert_eq!(issues.len(), 1, "{:?}", func);
        assert_eq!(issues[0].span, CALL);
        assert_eq!(issues[0].fragments, vec![frag(Message::Argument(max), at(max))]);
        let (_, issues, _) = call(func, nulls(max + 3));
        assert_eq!(arity_errors(&issues), 1, "{:?}", func);
        assert_eq!(
            issues[0].fragments,
            vec![
                frag(Message::Argument(max), at(max)),
                frag(Message::Argument(max + 1), at(max + 1)),
                frag(Message::Argument(max + 2), at(max + 2)),
            ]
        );
    }
}

#[test]
fn arity_messages() {
    let (_, issues, _) = call(Function::Right, nulls(1));
    assert_eq!(issues, vec![err(Message::ExpectedArguments { expected: 2, given: 1 }, CALL)]);
    let (_, issues, _) = call(Function::SubStr, nulls(1));
    assert_eq!(
        issues,
        vec![err(Message::ExpectedArgumentsBetween { min: 2, max: 3, given: 1 }, CALL)]
    );
    let (_, issues, _) = call(Function::SubStr, nulls(4));
    assert_eq!(
        issues,
        vec![Issue {
            level: Level::Error,
            message: Message::ExpectedArgumentsBetween { min: 2, max: 3, given: 4 },
            span: CALL,
            fragments: vec![frag(Message::Argument(3), at(3))],
        }]
    );
    let (_, issues, _) = call(Function::CurDate, nulls(1));
    assert_eq!(
        issues,
        vec![Issue {
            level: Level::Error,
            message: Message::ExpectedArguments { expected: 0, given: 1 },
            span: CALL,
            fragments: vec![frag(Message::Argument(0), at(0))],
        }]
    );
}

#[test]
fn arg_cnt_checks_the_bounds_inclusively() {
    let schemas = catalog();
    let mut typer = Typer::new(&schemas, &OPTIONS);
    let args = nulls(3);
    arg_cnt(&mut typer, 3, 3, &args, CALL);
    arg_cnt(&mut typer, 1, 3, &args, CALL);
    arg_cnt(&mut typer, 3, 5, &args, CALL);
    arg_cnt(&mut typer, 0, 999, &args, CALL);
    assert_eq!(typer.issues, vec![]);
    arg_cnt(&mut typer, 4, 5, &args, sp(1, 2));
    arg_cnt(&mut typer, 0, 2, &args, sp(3, 4));
    arg_cnt(&mut typer, 2, 2, &args, sp(5, 6));
    assert_eq!(
        typer.issues,
        vec![
            err(Message::ExpectedArgumentsBetween { min: 4, max: 5, given: 3 }, sp(1, 2)),
            Issue {
                level: Level::Error,
                message: Message::ExpectedArgumentsBetween { min: 0, max: 2, given: 3 },
                span: sp(3, 4),
                fragments: vec![frag(Message::Argument(2), at(2))],
            },
            Issue {
                level: Level::Error,
                message: Message::ExpectedArguments { expected: 2, given: 3 },
                span: sp(5, 6),
                fragments: vec![frag(Message::Argument(2), at(2))],
            },
        ]
    );
}

#[test]
fn results_of_functions_with_a_signature() {
    let cases = [
        (Function::Rand, vec![], FullType::new(Type::F64, true)),
        (Function::Rand, vec![integer(0)], FullType::new(Type::F64, true)),
        (Function::Right, vec![string(0), integer(1)], base(BaseType::String, true)),
        (Function::Left, vec![string(0), null(1)], base(BaseType::String, false)),
        (Function::SubStr, vec![string(0), integer(1)], base(BaseType::String, true)),
        (Function::SubStr, vec![string(0), integer(1), integer(2)], base(BaseType::String, true)),
        (Function::FindInSet, vec![string(0), string(1)], base(BaseType::Integer, true)),
        (Function::SubStringIndex, vec![string(0), string(1), integer(2)], base(BaseType::String, true)),
        (Function::ExtractValue, vec![string(0), string(1)], base(BaseType::String, true)),
        (Function::Replace, vec![null(0), string(1), string(2)], base(BaseType::String, false)),
        (Function::CharacterLength, vec![string(0)], base(BaseType::Integer, true)),
        (Function::Now, vec![], base(BaseType::DateTime, true)),
        (Function::CurDate, vec![], base(BaseType::Date, true)),
        (Function::CurrentTimestamp, vec![integer(0)], base(BaseType::TimeStamp, true)),
        (Function::DateFormat, vec![null(0), string(1)], base(BaseType::String, false)),
    ];
    for (func, args, expected) in cases {
        let (t, issues, _) = call(func, args);
        assert_eq!(t, expected, "{:?}", func);
        assert_eq!(issues, vec![], "{:?}", func);
    }
}

#[test]
fn each_argument_is_checked_against_its_category() {
    let (t, issues, _) = call(Function::Left, vec![integer(0), string(1)]);
    assert_eq!(t, base(BaseType::String, true));
    assert_eq!(
        issues,
        vec![
            err(
                Message::ExpectedType {
                    expected: Type::Base(BaseType::String),
                    given: Type::Base(BaseType::Integer)
                },
                at(0)
            ),
            err(
                Message::ExpectedType {
                    expected: Type::Base(BaseType::Integer),
                    given: Type::Base(BaseType::String)
                },
                at(1)
            ),
        ]
    );
}

#[test]
fn surplus_arguments_are_typed_but_do_not_count() {
    let unknown = Expression::Function(Function::Other, vec![], sp(70, 80));
    let (t, issues, _) = call(Function::CharacterLength, vec![string(0), null(1), unknown]);
    assert_eq!(t, base(BaseType::Integer, true));
    assert_eq!(
        issues,
        vec![
            Issue {
                level: Level::Error,
                message: Message::ExpectedArguments { expected: 1, given: 3 },
                span: CALL,
                fragments: vec![
                    frag(Message::Argument(1), at(1)),
                    frag(Message::Argument(2), sp(70, 80))
                ],
            },
            err(Message::FunctionNotImplemented, sp(70, 80)),
        ]
    );
}

#[test]
fn placeholders_adopt_the_category_of_their_argument() {
    let (t, issues, args) = call(Function::Left, vec![placeholder(0, 0), placeholder(1, 1)]);
    assert_eq!(t, base(BaseType::String, false));
    assert_eq!(issues, vec![]);
    assert_eq!(
        args,
        vec![
            (ArgumentKey::Index(0), base(BaseType::String, false)),
            (ArgumentKey::Index(1), base(BaseType::Integer, false)),
        ]
    );
}

#[test]
fn typed_args_types_every_argument_in_order() {
    let schemas = catalog();
    let mut typer = Typer::new(&schemas, &OPTIONS);
    let args = vec![integer(0), Expression::ListHack(0, at(1)), string(2), placeholder(4, 3)];
    let types = typed_args(&mut typer, &args, flags());
    assert_eq!(
        types,
        vec![
            base(BaseType::Integer, true),
            FullType::invalid(),
            base(BaseType::String, true),
            FullType::new(
                Type::Args(
                    BaseType::Any,
                    vec![ArgRef { index: 4, arg_type: ArgType::Normal, span: at(3) }]
                ),
                false
            ),
        ]
    );
    assert_eq!(typer.issues, vec![err(Message::ListOutsideIn, at(1))]);
}

#[test]
fn unix_timestamp() {
    let (t, issues, _) = call(Function::UnixTimestamp, vec![]);
    assert_eq!(t, FullType::new(Type::I64, true));
    assert_eq!(issues, vec![]);
    let (t, issues, _) = call(Function::UnixTimestamp, vec![null(0)]);
    assert_eq!(t, FullType::new(Type::I64, false));
    assert_eq!(issues, vec![]);
    let (t, issues, _) = call(Function::UnixTimestamp, vec![string(0), integer(1)]);
    assert_eq!(t, FullType::new(Type::I64, true));
    assert_eq!(
        issues,
        vec![
            Issue {
                level: Level::Error,
                message: Message::ExpectedArgumentsBetween { min: 0, max: 1, given: 2 },
                span: CALL,
                fragments: vec![frag(Message::Argument(1), at(1))],
            },
            err(
                Message::ExpectedType {
                    expected: Type::Base(BaseType::DateTime),
                    given: Type::Base(BaseType::String)
                },
                at(0)
            ),
        ]
    );
}

#[test]
fn if_null() {
    let (t, issues, _) = call(Function::IfNull, vec![null(0), integer(1)]);
    assert_eq!(t, base(BaseType::Integer, true));
    assert_eq!(issues, vec![]);

    let (t, issues, _) = call(Function::IfNull, vec![integer(0), null(1)]);
    assert_eq!(t, FullType::new(Type::Null, false));
    assert_eq!(
        issues,
        vec![Issue {
            level: Level::Warning,
            message: Message::CannotBeNull,
            span: at(0),
            fragments: vec![]
        }]
    );

    let (t, issues, _) = call(Function::IfNull, vec![null(0), string(1), integer(2)]);
    assert_eq!(t, base(BaseType::String, true));
    assert_eq!(arity_errors(&issues), 1);
    assert_eq!(issues.len(), 1);

    let (t, issues, _) = call(Function::IfNull, vec![]);
    assert_eq!(t, FullType::invalid());
    assert_eq!(issues, vec![err(Message::ExpectedArguments { expected: 2, given: 0 }, CALL)]);

    let (t, issues, _) = call(Function::IfNull, vec![null(0)]);
    assert_eq!(t, FullType::new(Type::Null, false));
    assert_eq!(issues, vec![err(Message::ExpectedArguments { expected: 2, given: 1 }, CALL)]);

    let arg = Expression::Function(Function::CharacterLength, vec![null(5)], at(0));
    let (t, issues, _) = call(Function::IfNull, vec![arg, string(1)]);
    assert_eq!(t, base(BaseType::String, true));
    assert_eq!(
        issues,
        vec![err(
            Message::ExpectedType {
                expected: Type::Base(BaseType::Integer),
                given: Type::Base(BaseType::String)
            },
            at(1)
        )]
    );
}

#[test]
fn json_functions_yield_nullable_json() {
    for func in [Function::JsonExtract, Function::JsonValue] {
        let (t, issues, _) = call(func, vec![string(0), string(1), string(2)]);
        assert_eq!(t, FullType::new(Type::JSON, false));
        assert_eq!(issues, vec![], "{:?}", func);
        let (t, issues, _) = call(func, vec![string(0)]);
        assert_eq!(t, FullType::new(Type::JSON, false));
        assert_eq!(
            issues,
            vec![err(Message::ExpectedArgumentsBetween { min: 2, max: 999, given: 1 }, CALL)]
        );
        let (_, issues, _) = call(func, vec![string(0), integer(1), boolean(2)]);
        assert_eq!(
            issues,
            vec![
                err(
                    Message::ExpectedType {
                        expected: Type::Base(BaseType::String),
                        given: Type::Base(BaseType::Integer)
                    },
                    at(1)
                ),
                err(
                    Message::ExpectedType {
                        expected: Type::Base(BaseType::String),
                        given: Type::Base(BaseType::Bool)
                    },
                    at(2)
                ),
            ]
        );
    }
    for func in [Function::JsonSet, Function::JsonReplace] {
        let (t, issues, _) = call(func, vec![string(0), string(1), integer(2), string(3), boolean(4)]);
        assert_eq!(t, FullType::new(Type::JSON, false));
        assert_eq!(issues, vec![], "{:?}", func);
        let (_, issues, _) = call(func, vec![integer(0), integer(1), integer(2), integer(3), integer(4)]);
        assert_eq!(
            issues.iter().map(|i| i.span).collect::<Vec<_>>(),
            vec![at(0), at(1), at(3)],
            "{:?}",
            func
        );
        let (_, issues, _) = call(func, vec![string(0), string(1)]);
        assert_eq!(
            issues,
            vec![err(Message::ExpectedArgumentsBetween { min: 3, max: 999, given: 2 }, CALL)]
        );
    }
}

#[test]
fn json_unquote_yields_a_string_that_is_not_null() {
    let (t, issues, _) = call(Function::JsonUnquote, vec![string(0)]);
    assert_eq!(t, base(BaseType::String, true));
    assert_eq!(issues, vec![]);
    let (t, issues, _) = call(Function::JsonUnquote, vec![null(0)]);
    assert_eq!(t, base(BaseType::String, true));
    assert_eq!(issues, vec![]);
    let (_, issues, _) = call(Function::JsonUnquote, vec![integer(0), string(1)]);
    assert_eq!(arity_errors(&issues), 1);
    assert_eq!(issues.len(), 2);
    assert_eq!(issues[1].span, at(0));
}

#[test]
fn aggregates_are_nullable() {
    for func in [Function::Min, Function::Max, Function::Sum] {
        let (t, issues, _) = call(func, vec![integer(0)]);
        assert_eq!(t, base(BaseType::Integer, false), "{:?}", func);
        assert_eq!(issues, vec![]);
        let (t, _, _) = call(func, vec![string(0)]);
        assert_eq!(t, base(BaseType::String, false));
        let (t, _, _) = call(func, vec![null(0)]);
        assert!(!t.not_null);
        let (t, issues, _) = call(func, vec![]);
        assert_eq!(t, FullType::invalid());
        assert_eq!(issues, vec![err(Message::ExpectedArguments { expected: 1, given: 0 }, CALL)]);
        let (t, issues, _) = call(func, vec![float(0), integer(1)]);
        assert_eq!(t, base(BaseType::Float, false));
        assert_eq!(arity_errors(&issues), 1);
    }
}

#[test]
fn concat_takes_anything() {
    let (t, issues, _) = call(Function::Concat, vec![]);
    assert_eq!(t, base(BaseType::String, true));
    assert_eq!(issues, vec![]);
    let (t, issues, _) = call(Function::Concat, vec![string(0), integer(1), float(2)]);
    assert_eq!(t, base(BaseType::String, true));
    assert_eq!(issues, vec![]);
    let (t, _, _) = call(Function::Concat, vec![string(0), null(1), float(2)]);
    assert_eq!(t, base(BaseType::String, false));
}

#[test]
fn least_and_greatest_yield_a_nullable_wildcard() {
    for func in [Function::Least, Function::Greatest] {
        let (t, issues, _) = call(func, vec![integer(0), integer(1), null(2)]);
        assert_eq!(t, base(BaseType::Any, false), "{:?}", func);
        assert_eq!(issues, vec![]);
        let (t, issues, _) = call(func, vec![integer(0)]);
        assert_eq!(t, base(BaseType::Any, false));
        assert_eq!(issues, vec![]);

        let (t, issues, _) = call(func, vec![integer(0), string(1), integer(2), float(3)]);
        assert_eq!(t, base(BaseType::Any, false));
        let mismatch = |i: usize, t: BaseType| Issue {
            level: Level::Error,
            message: Message::NoneMatchingInputTypes,
            span: CALL,
            fragments: vec![
                frag(Message::TypeIs(Type::Base(BaseType::Integer)), at(0)),
                frag(Message::TypeIs(Type::Base(t)), at(i)),
            ],
        };
        assert_eq!(issues, vec![mismatch(1, BaseType::String), mismatch(3, BaseType::Float)]);

        let (t, issues, _) = call(func, vec![]);
        assert_eq!(t, base(BaseType::Any, false));
        assert_eq!(
            issues,
            vec![err(Message::ExpectedArgumentsBetween { min: 1, max: 9999, given: 0 }, CALL)]
        );

        let (_, issues, args) = call(func, vec![integer(0), placeholder(0, 1)]);
        assert_eq!(issues, vec![]);
        assert_eq!(args, vec![(ArgumentKey::Index(0), base(BaseType::Integer, false))]);
    }
}

#[test]
fn if_with_incompatible_branches() {
    let condition = Expression::Binary {
        op: BinaryOperator::Eq,
        lhs: Box::new(Expression::Integer(1, sp(3, 4))),
        rhs: Box::new(Expression::Integer(1, sp(5, 6))),
        span: sp(3, 6),
    };
    let one = Expression::Integer(1, sp(8, 9));
    let a = Expression::String("a".to_string(), sp(11, 14));
    let (t, issues, _) = call(Function::If, vec![condition, one, a]);
    assert_eq!(t, FullType::invalid());
    assert_eq!(
        issues,
        vec![Issue {
            level: Level::Error,
            message: Message::IncompatibleTypes,
            span: CALL,
            fragments: vec![
                frag(Message::OfType(Type::Base(BaseType::Integer)), sp(8, 9)),
                frag(Message::OfType(Type::Base(BaseType::String)), sp(11, 14)),
            ],
        }]
    );
}

#[test]
fn if_yields_the_unified_type_of_its_branches() {
    let (t, issues, _) = call(Function::If, vec![boolean(0), integer(1), integer(2)]);
    assert_eq!(t, base(BaseType::Integer, true));
    assert_eq!(issues, vec![]);
    let (t, issues, _) = call(Function::If, vec![boolean(0), integer(1), null(2)]);
    assert_eq!(t, base(BaseType::Integer, false));
    assert_eq!(issues, vec![]);
    let (t, issues, _) = call(Function::If, vec![null(0), string(1), string(2)]);
    assert_eq!(t, base(BaseType::String, false));
    assert_eq!(issues, vec![]);
    let (t, issues, _) = call(Function::If, vec![integer(0), string(1), string(2)]);
    assert_eq!(t, base(BaseType::String, true));
    assert_eq!(
        issues,
        vec![err(
            Message::ExpectedType {
                expected: Type::Base(BaseType::Bool),
                given: Type::Base(BaseType::Integer)
            },
            at(0)
        )]
    );
    let (t, issues, _) = call(Function::If, vec![boolean(0), string(1)]);
    assert_eq!(t, FullType::invalid());
    assert_eq!(issues, vec![err(Message::ExpectedArguments { expected: 3, given: 2 }, CALL)]);
    let (t, issues, args) = call(Function::If, vec![boolean(0), placeholder(0, 1), float(2)]);
    assert_eq!(t, base(BaseType::Float, false));
    assert_eq!(issues, vec![]);
    assert_eq!(args, vec![(ArgumentKey::Index(0), base(BaseType::Float, false))]);
}

#[test]
fn from_unix_time() {
    let (t, issues, _) = call(Function::FromUnixTime, vec![float(0)]);
    assert_eq!(t, base(BaseType::DateTime, true));
    assert_eq!(issues, vec![]);
    let (t, issues, _) = call(Function::FromUnixTime, vec![float(0), string(1)]);
    assert_eq!(t, base(BaseType::String, true));
    assert_eq!(issues, vec![]);
    let (t, _, _) = call(Function::FromUnixTime, vec![null(0), string(1)]);
    assert_eq!(t, base(BaseType::String, false));
    let (t, issues, _) = call(Function::FromUnixTime, vec![]);
    assert_eq!(t, base(BaseType::DateTime, true));
    assert_eq!(
        issues,
        vec![err(Message::ExpectedArgumentsBetween { min: 1, max: 2, given: 0 }, CALL)]
    );
    let (_, issues, _) = call(Function::FromUnixTime, vec![string(0), integer(1)]);
    assert_eq!(
        issues,
        vec![
            err(
                Message::ExpectedType {
                    expected: Type::Base(BaseType::Float),
                    given: Type::Base(BaseType::String)
                },
                at(0)
            ),
            err(
                Message::ExpectedType {
                    expected: Type::Base(BaseType::String),
                    given: Type::Base(BaseType::Integer)
                },
                at(1)
            ),
        ]
    );
}

#[test]
fn value_is_allowed_in_on_duplicate_key_update_only() {
    let schemas = catalog();
    let mut typer = Typer::new(&schemas, &OPTIONS);
    let inside = ExpressionFlags::new().with_in_on_duplicate_key_update(true);
    let t = type_function(&mut typer, Function::Value, &vec![integer(0)], CALL, inside);
    assert_eq!(t, base(BaseType::Integer, true));
    assert_eq!(typer.issues, vec![]);

    let (t, issues, _) = call(Function::Value, vec![integer(0)]);
    assert_eq!(t, base(BaseType::Integer, true));
    assert_eq!(issues, vec![err(Message::ValueOutsideOnDuplicateKeyUpdate, CALL)]);

    let (t, issues, _) = call(Function::Value, vec![]);
    assert_eq!(t, FullType::invalid());
    assert_eq!(
        issues,
        vec![
            err(Message::ValueOutsideOnDuplicateKeyUpdate, CALL),
            err(Message::ExpectedArguments { expected: 1, given: 0 }, CALL),
        ]
    );
}

#[test]
fn unknown_functions_are_an_error_and_their_arguments_are_typed() {
    let (t, issues, _) = call(Function::Other, vec![]);
    assert_eq!(t, FullType::invalid());
    assert_eq!(issues, vec![err(Message::FunctionNotImplemented, CALL)]);
    let (t, issues, _) = call(Function::Other, vec![Expression::Unsupported(sp(4, 5)), integer(1)]);
    assert_eq!(t, FullType::invalid());
    assert_eq!(
        issues,
        vec![err(Message::NotImplemented, sp(4, 5)), err(Message::FunctionNotImplemented, CALL)]
    );
}
