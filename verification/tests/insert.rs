use sql_type::ast::{
    Expression, Function, Identifier, IdentifierPart, InsertReplace, InsertReplaceFlag,
    InsertReplaceType, OnConflict, OnConflictAction, OnConflictTarget, Returning, Select,
    SelectExpr, SetPair, TableReference,
};
use sql_type::type_insert_replace::{classify_auto_increment, fit_type, type_assignment};
use sql_type::{
    type_insert_replace, ArgRef, ArgType, ArgumentKey, AutoIncrementId, BaseType, Column,
    ExpressionFlags, Fragment, FullType, Issue, Level, Message, ReferenceType, Schema, Schemas,
    SelectType, SelectTypeColumn, Span, SqlDialect, Type, TypeOptions, Typer,
};

const OPTIONS: TypeOptions = TypeOptions { dialect: SqlDialect::MariaDb };

fn sp(start: usize, end: usize) -> Span {
    Span { start, end }
}

fn base(b: BaseType, not_null: bool) -> FullType {
    FullType::new(Type::Base(b), not_null)
}

fn err(message: Message, span: Span) -> Issue {
    Issue { level: Level::Error, message, span, fragments: vec![] }
}

fn frag(message: Message, span: Span) -> Fragment {
    Fragment { message, span }
}

fn ident(name: &str, start: usize) -> Identifier {
    Identifier { value: name.to_string(), span: sp(start, start + name.len()) }
}

fn column(n: &str, start: usize) -> Expression {
    Expression::Identifier(vec![IdentifierPart::Name(ident(n, start))], sp(start, start + n.len()))
}

fn integer(start: usize) -> Expression {
    Expression::Integer(1, sp(start, start + 1))
}

fn string(start: usize) -> Expression {
    Expression::String("s".to_string(), sp(start, start + 3))
}

fn placeholder(index: usize, start: usize) -> Expression {
    Expression::Arg(index, sp(start, start + 1))
}

fn col(n: &str, type_: FullType, auto_increment: bool) -> Column {
    Column { identifier: n.to_string(), type_, auto_increment }
}

/// `t(a integer not null, b string)`, `u(id integer not null auto_increment, v string)`
/// and the view `w(a integer not null)`.
fn catalog() -> Schemas {
    Schemas {
        schemas: vec![
            Schema {
                name: "t".to_string(),
                view: false,
                columns: vec![
                    col("a", base(BaseType::Integer, true), false),
                    col("b", base(BaseType::String, false), false),
                ],
            },
            Schema {
                name: "u".to_string(),
                view: false,
                columns: vec![
                    col("id", base(BaseType::Integer, true), true),
                    col("v", base(BaseType::String, false), false),
                ],
            },
            Schema {
                name: "w".to_string(),
                view: true,
                columns: vec![col("a", base(BaseType::Integer, true), false)],
            },
        ],
    }
}

/// `INSERT INTO <table> (<columns>)`, with the table's name at 12 and the
/// columns from 15 on, three bytes apart.
fn insert(table: &str, columns: &[&str]) -> InsertReplace {
    InsertReplace {
        type_: InsertReplaceType::Insert(sp(0, 6)),
        flags: vec![],
        table: ident(table, 12),
        table_prefix: vec![],
        columns: columns.iter().enumerate().map(|(i, c)| ident(c, 15 + 3 * i)).collect(),
        values: None,
        select: None,
        set: None,
        on_duplicate_key_update: None,
        on_conflict: None,
        returning: None,
    }
}

fn run(ior: &InsertReplace) -> (AutoIncrementId, Option<SelectType>, Vec<Issue>, Vec<(ArgumentKey, FullType)>) {
    let schemas = catalog();
    let mut typer = Typer::new(&schemas, &OPTIONS);
    let (id, returning) = type_insert_replace(&mut typer, ior);
    assert!(typer.reference_types.is_empty());
    (id, returning, typer.issues, typer.arg_types)
}

#[test]
fn a_placeholder_gets_the_type_of_its_column() {
    // INSERT INTO t (a) VALUES (?)
    let mut ior = insert("t", &["a"]);
    ior.values = Some(vec![vec![placeholder(0, 27)]]);
    let (id, returning, issues, args) = run(&ior);
    assert_eq!(issues, vec![]);
    assert_eq!(args.len(), 1);
    assert_eq!(args[0].0, ArgumentKey::Index(0));
    assert_eq!(args[0].1.base(), BaseType::Integer);
    assert_eq!(args[0].1, base(BaseType::Integer, true));
    assert_eq!(id, AutoIncrementId::No);
    assert_eq!(returning, None);
}

#[test]
fn an_unknown_column_in_on_duplicate_key_update() {
    // INSERT INTO t (a) VALUES (1) ON DUPLICATE KEY UPDATE unknown_col = 1
    let mut ior = insert("t", &["a"]);
    ior.values = Some(vec![vec![integer(27)]]);
    ior.on_duplicate_key_update =
        Some(vec![SetPair { column: ident("unknown_col", 54), value: integer(68) }]);
    let (_, _, issues, _) = run(&ior);
    assert_eq!(issues, vec![err(Message::UnknownIdentifier, sp(54, 65))]);

    // The value is typed all the same: what is wrong with it is reported first.
    ior.on_duplicate_key_update = Some(vec![SetPair {
        column: ident("unknown_col", 54),
        value: Expression::Function(Function::Other, vec![integer(72)], sp(68, 74)),
    }]);
    let (_, _, issues, _) = run(&ior);
    assert_eq!(
        issues,
        vec![
            err(Message::FunctionNotImplemented, sp(68, 74)),
            err(Message::UnknownIdentifier, sp(54, 65)),
        ]
    );
}

#[test]
fn values_must_fit_their_columns() {
    // INSERT INTO t (b, a) VALUES ('s', 1), (1, 's', c)
    let mut ior = insert("t", &["b", "a"]);
    ior.values = Some(vec![
        vec![string(30), integer(35)],
        vec![integer(40), string(43), column("c", 48)],
    ]);
    let (_, _, issues, _) = run(&ior);
    assert_eq!(
        issues,
        vec![
            err(Message::GotType(Type::Base(BaseType::Integer)), sp(40, 41))
                .frag(Message::Expected(Type::Base(BaseType::String)), sp(15, 16)),
            err(Message::GotType(Type::Base(BaseType::String)), sp(43, 46))
                .frag(Message::Expected(Type::Base(BaseType::Integer)), sp(18, 19)),
            // A value beyond the columns is typed, and fits whatever it is.
            err(Message::UnknownIdentifier, sp(48, 49)),
        ]
    );
}

#[test]
fn unknown_columns_are_reported_and_left_out() {
    // INSERT INTO t (x, b, y) VALUES (1)
    let mut ior = insert("t", &["x", "b", "y"]);
    ior.values = Some(vec![vec![integer(32)]]);
    let (_, _, issues, _) = run(&ior);
    assert_eq!(
        issues,
        vec![
            err(Message::NoSuchColumnInSchema, sp(15, 16)),
            err(Message::NoSuchColumnInSchema, sp(21, 22)),
            // The first value is held against the first column that the table has.
            err(Message::GotType(Type::Base(BaseType::Integer)), sp(32, 33))
                .frag(Message::Expected(Type::Base(BaseType::String)), sp(18, 19)),
        ]
    );
}

#[test]
fn an_unknown_table_skips_the_checks_against_the_schema() {
    // INSERT INTO nothing (a) VALUES ('s', ?, c) SET a = 1
    let mut ior = insert("nothing", &["a"]);
    ior.values = Some(vec![vec![string(30), placeholder(0, 35), column("c", 38)]]);
    ior.set = Some(vec![SetPair { column: ident("a", 45), value: integer(49) }]);
    let (id, _, issues, args) = run(&ior);
    assert_eq!(
        issues,
        vec![
            err(Message::UnknownTable, sp(12, 19)),
            err(Message::UnknownIdentifier, sp(38, 39)),
            err(Message::UnknownIdentifier, sp(45, 46)),
        ]
    );
    assert_eq!(args, vec![]);
    assert_eq!(id, AutoIncrementId::No);
}

#[test]
fn inserting_into_a_view_is_reported() {
    let mut ior = insert("w", &["a"]);
    ior.values = Some(vec![vec![string(30)]]);
    let (_, _, issues, _) = run(&ior);
    assert_eq!(
        issues,
        vec![
            err(Message::InsertIntoView, sp(12, 13)),
            err(Message::GotType(Type::Base(BaseType::String)), sp(30, 33))
                .frag(Message::Expected(Type::Base(BaseType::Integer)), sp(15, 16)),
        ]
    );
}

#[test]
fn qualifiers_of_the_table_are_not_supported() {
    let mut ior = insert("t", &[]);
    ior.table_prefix = vec![ident("db", 3), ident("schema", 6)];
    let (_, _, issues, _) = run(&ior);
    assert_eq!(
        issues,
        vec![err(Message::NotImplemented, sp(3, 5)), err(Message::NotImplemented, sp(6, 12))]
    );
}

fn query(items: Vec<SelectExpr>) -> Select {
    Select {
        span: sp(30, 60),
        flags: vec![],
        select_exprs: items,
        table_references: Some(vec![TableReference::Table { identifier: ident("u", 58), as_: None }]),
        where_: None,
        group_by: None,
        order_by: None,
        limit: None,
    }
}

#[test]
fn the_columns_of_a_select_source_are_compared_by_position() {
    // INSERT INTO t (a, b) SELECT id, v FROM u
    let mut ior = insert("t", &["a", "b"]);
    ior.select = Some(query(vec![
        SelectExpr { expr: column("id", 37), as_: None },
        SelectExpr { expr: column("v", 41), as_: None },
    ]));
    let (_, _, issues, _) = run(&ior);
    assert_eq!(issues, vec![]);

    // INSERT INTO t (a, b) SELECT v, id, id FROM u
    ior.select = Some(query(vec![
        SelectExpr { expr: column("v", 37), as_: None },
        SelectExpr { expr: column("id", 40), as_: None },
        SelectExpr { expr: column("id", 44), as_: Some(ident("i", 50)) },
    ]));
    let (_, _, issues, _) = run(&ior);
    assert_eq!(
        issues,
        vec![
            err(Message::GotType(Type::Base(BaseType::String)), sp(37, 38))
                .frag(Message::Expected(Type::Base(BaseType::Integer)), sp(15, 16)),
            err(Message::GotType(Type::Base(BaseType::Integer)), sp(40, 42))
                .frag(Message::Expected(Type::Base(BaseType::String)), sp(18, 19)),
            err(Message::ColumnInSelectNotInInsert, sp(50, 51)),
        ]
    );

    // INSERT INTO t (a, b) SELECT id FROM u
    ior.select = Some(query(vec![SelectExpr { expr: column("id", 37), as_: None }]));
    let (_, _, issues, _) = run(&ior);
    assert_eq!(issues, vec![err(Message::MissingColumnInSelect, sp(18, 19))]);
}

#[test]
fn assignments_must_fit_their_columns() {
    // INSERT INTO t SET a = ?, b = 1, c = 2
    let mut ior = insert("t", &[]);
    ior.set = Some(vec![
        SetPair { column: ident("a", 18), value: placeholder(0, 22) },
        SetPair { column: ident("b", 25), value: integer(29) },
        SetPair { column: ident("c", 32), value: integer(36) },
    ]);
    let (_, _, issues, args) = run(&ior);
    assert_eq!(
        issues,
        vec![
            err(
                Message::GotTypeExpected {
                    given: base(BaseType::Integer, true),
                    expected: base(BaseType::String, false)
                },
                sp(29, 30)
            ),
            err(Message::UnknownIdentifier, sp(32, 33)),
        ]
    );
    assert_eq!(args, vec![(ArgumentKey::Index(0), base(BaseType::Integer, true))]);
}

#[test]
fn value_is_allowed_in_on_duplicate_key_update() {
    // INSERT INTO t (a) VALUES (VALUE(a)) ON DUPLICATE KEY UPDATE a = VALUE(a)
    let value = |start: usize| {
        Expression::Function(Function::Value, vec![column("a", start + 6)], sp(start, start + 8))
    };
    let mut ior = insert("t", &["a"]);
    ior.set = Some(vec![SetPair { column: ident("a", 27), value: value(31) }]);
    ior.on_duplicate_key_update = Some(vec![SetPair { column: ident("a", 62), value: value(66) }]);
    let (_, _, issues, _) = run(&ior);
    assert_eq!(issues, vec![err(Message::ValueOutsideOnDuplicateKeyUpdate, sp(31, 39))]);
}

#[test]
fn an_assignment_to_an_ambiguous_column() {
    let schemas = catalog();
    let mut typer = Typer::new(&schemas, &OPTIONS);
    for (name, start) in [("one", 100), ("two", 200)] {
        typer.reference_types.push(ReferenceType {
            name: Some(name.to_string()),
            span: sp(start, start + 3),
            columns: vec![("a".to_string(), base(BaseType::Integer, true))],
        });
    }
    let pair = SetPair { column: ident("a", 5), value: Expression::Unsupported(sp(9, 12)) };
    type_assignment(&mut typer, &pair, ExpressionFlags::new());
    assert_eq!(
        typer.issues,
        vec![
            err(Message::NotImplemented, sp(9, 12)),
            err(Message::AmbiguousReference, sp(5, 6))
                .frag(Message::DefinedHere, sp(100, 103))
                .frag(Message::DefinedHere, sp(200, 203)),
        ]
    );
}

#[test]
fn fitting_binds_placeholders_on_success_only() {
    let schemas = catalog();
    let mut typer = Typer::new(&schemas, &OPTIONS);
    let given = FullType::new(
        Type::Args(BaseType::Any, vec![ArgRef { index: 4, arg_type: ArgType::Normal, span: sp(1, 2) }]),
        false,
    );
    let issue = || err(Message::GotType(Type::Null), sp(1, 2));
    fit_type(&mut typer, &given, &FullType::new(Type::U16, true), issue());
    assert_eq!(typer.issues, vec![]);
    assert_eq!(typer.arg_types, vec![(ArgumentKey::Index(4), FullType::new(Type::U16, true))]);

    let given = FullType::new(
        Type::Args(BaseType::String, vec![ArgRef { index: 5, arg_type: ArgType::Normal, span: sp(1, 2) }]),
        false,
    );
    fit_type(&mut typer, &given, &FullType::new(Type::U16, true), issue());
    assert_eq!(typer.issues, vec![issue()]);
    assert_eq!(typer.arg_types.len(), 1);
}

#[test]
fn on_conflict() {
    // INSERT INTO t (a) VALUES (1) ON CONFLICT (a, x) DO UPDATE SET b = 1, y = 2 WHERE b
    let mut ior = insert("t", &["a"]);
    ior.values = Some(vec![vec![integer(27)]]);
    ior.on_conflict = Some(OnConflict {
        target: OnConflictTarget::Columns(vec![ident("a", 42), ident("x", 45)]),
        action: OnConflictAction::DoUpdateSet {
            sets: vec![
                SetPair { column: ident("b", 62), value: integer(66) },
                SetPair { column: ident("y", 69), value: integer(73) },
            ],
            where_: Some(column("b", 81)),
        },
    });
    let (id, _, issues, _) = run(&ior);
    assert_eq!(id, AutoIncrementId::No);
    assert_eq!(
        issues,
        vec![
            err(Message::UnknownIdentifier, sp(45, 46)),
            err(
                Message::GotTypeExpected {
                    given: base(BaseType::Integer, true),
                    expected: base(BaseType::String, false)
                },
                sp(66, 67)
            ),
            err(Message::UnknownIdentifier, sp(69, 70)),
            err(
                Message::ExpectedType {
                    expected: Type::Base(BaseType::Bool),
                    given: Type::Base(BaseType::String)
                },
                sp(81, 82)
            ),
        ]
    );

    ior.on_conflict = Some(OnConflict {
        target: OnConflictTarget::OnConstraint(sp(42, 55)),
        action: OnConflictAction::DoNothing(sp(60, 70)),
    });
    let (_, _, issues, _) = run(&ior);
    assert_eq!(issues, vec![err(Message::NotImplemented, sp(42, 55))]);

    ior.on_conflict = Some(OnConflict {
        target: OnConflictTarget::Unspecified,
        action: OnConflictAction::DoUpdateSet { sets: vec![], where_: None },
    });
    let (_, _, issues, _) = run(&ior);
    assert_eq!(issues, vec![]);
}

#[test]
fn returning_is_typed_as_a_select_list() {
    // INSERT INTO u (v) VALUES ('s') RETURNING id, v AS w, 1
    let mut ior = insert("u", &["v"]);
    ior.values = Some(vec![vec![string(27)]]);
    ior.returning = Some(Returning {
        span: sp(32, 41),
        exprs: vec![
            SelectExpr { expr: column("id", 42), as_: None },
            SelectExpr { expr: column("v", 46), as_: Some(ident("w", 51)) },
            SelectExpr { expr: integer(54), as_: None },
        ],
    });
    let (id, returning, issues, _) = run(&ior);
    assert_eq!(id, AutoIncrementId::Yes);
    assert_eq!(
        issues,
        vec![Issue {
            level: Level::Warning,
            message: Message::UnnamedColumn,
            span: sp(54, 55),
            fragments: vec![]
        }]
    );
    assert_eq!(
        returning,
        Some(SelectType {
            columns: vec![
                SelectTypeColumn {
                    name: Some("id".to_string()),
                    type_: base(BaseType::Integer, true),
                    span: sp(42, 44)
                },
                SelectTypeColumn {
                    name: Some("w".to_string()),
                    type_: base(BaseType::String, false),
                    span: sp(51, 52)
                },
                SelectTypeColumn {
                    name: None,
                    type_: base(BaseType::Integer, true),
                    span: sp(0, 0)
                },
            ],
            select_span: sp(32, 55),
        })
    );
    ior.returning = Some(Returning { span: sp(32, 41), exprs: vec![] });
    let (_, returning, _, _) = run(&ior);
    assert_eq!(returning, Some(SelectType { columns: vec![], select_span: sp(32, 41) }));
}

#[test]
fn the_table_alone_is_in_scope_behind_the_rows() {
    let schemas = catalog();
    let mut typer = Typer::new(&schemas, &OPTIONS);
    typer.reference_types.push(ReferenceType {
        name: Some("outer".to_string()),
        span: sp(90, 95),
        columns: vec![("o".to_string(), base(BaseType::String, true))],
    });
    // INSERT INTO t (b) VALUES (o) SET b = o RETURNING o
    let mut ior = insert("t", &["b"]);
    ior.values = Some(vec![vec![column("o", 27)]]);
    ior.set = Some(vec![SetPair { column: ident("b", 34), value: column("o", 38) }]);
    ior.returning = Some(Returning {
        span: sp(40, 49),
        exprs: vec![SelectExpr { expr: column("o", 50), as_: None }],
    });
    let _ = type_insert_replace(&mut typer, &ior);
    assert_eq!(
        typer.issues,
        vec![
            err(Message::UnknownIdentifier, sp(38, 39)),
            err(
                Message::GotTypeExpected {
                    given: FullType::invalid(),
                    expected: base(BaseType::String, false)
                },
                sp(38, 39)
            ),
            err(Message::UnknownIdentifier, sp(50, 51)),
        ]
    );
    assert_eq!(typer.reference_types.len(), 1);
    assert_eq!(typer.reference_types[0].name, Some("outer".to_string()));
}

#[test]
fn auto_increment_classification() {
    let ignore = InsertReplaceFlag::Ignore(sp(7, 13));
    let ior = insert("u", &[]);
    assert_eq!(run(&ior).0, AutoIncrementId::Yes);
    let mut ior = insert("u", &[]);
    ior.flags = vec![InsertReplaceFlag::LowPriority(sp(7, 9)), ignore];
    assert_eq!(run(&ior).0, AutoIncrementId::Optional);
    let mut ior = insert("u", &[]);
    ior.flags = vec![
        InsertReplaceFlag::LowPriority(sp(7, 9)),
        InsertReplaceFlag::HighPriority(sp(7, 9)),
        InsertReplaceFlag::Delayed(sp(7, 9)),
    ];
    assert_eq!(run(&ior).0, AutoIncrementId::Yes);
    let mut ior = insert("u", &[]);
    ior.on_duplicate_key_update = Some(vec![SetPair { column: ident("v", 60), value: string(64) }]);
    assert_eq!(run(&ior).0, AutoIncrementId::Optional);
    let mut ior = insert("u", &[]);
    ior.type_ = InsertReplaceType::Replace(sp(0, 7));
    ior.flags = vec![ignore];
    assert_eq!(run(&ior).0, AutoIncrementId::No);
    let mut ior = insert("t", &[]);
    ior.flags = vec![ignore];
    assert_eq!(run(&ior).0, AutoIncrementId::No);
    assert_eq!(run(&insert("nothing", &[])).0, AutoIncrementId::No);

    let ior = insert("t", &[]);
    assert_eq!(classify_auto_increment(true, &ior), AutoIncrementId::Yes);
    assert_eq!(classify_auto_increment(false, &ior), AutoIncrementId::No);
}
