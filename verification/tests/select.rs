use sql_type::ast::{
    BinaryOperator, Expression, Function, Identifier, IdentifierPart, JoinType, Limit, Select,
    SelectExpr, SelectFlag, Statement, TableReference, Union, UnionWith,
};
use sql_type::type_select::{
    add_output_column, merge_union_columns, type_limit, type_select_exprs, type_select_flags,
    KleeneColumn, SelectOutput,
};
use sql_type::{
    resolve_kleene_identifier, type_reference, type_select, type_union, type_union_select,
    ArgumentKey, BaseType, Column, Fragment, FullType, Issue, Level, Message, ReferenceType,
    Schema, Schemas, SelectType, SelectTypeColumn, Span, SqlDialect, Type, TypeOptions, Typer,
};

const OPTIONS: TypeOptions = TypeOptions { dialect: SqlDialect::MariaDb };

fn sp(start: usize, end: usize) -> Span {
    Span { start, end }
}

fn base(b: BaseType, not_null: bool) -> FullType {
    FullType::new(Type::Base(b), not_null)
}

fn err(message: Message, span: Span) -> Issue {
    Issue { level: Level::Error, message, span, fragments: vec![] }
}

fn warn(message: Message, span: Span) -> Issue {
    Issue { level: Level::Warning, message, span, fragments: vec![] }
}

fn frag(message: Message, span: Span) -> Fragment {
    Fragment { message, span }
}

fn ident(name: &str, start: usize) -> Identifier {
    Identifier { value: name.to_string(), span: sp(start, start + name.len()) }
}

fn name(n: &str, start: usize) -> IdentifierPart {
    IdentifierPart::Name(ident(n, start))
}

fn column(n: &str, start: usize) -> Expression {
    Expression::Identifier(vec![name(n, start)], sp(start, start + n.len()))
}

fn star(start: usize) -> Expression {
    Expression::Identifier(vec![IdentifierPart::Star(sp(start, start + 1))], sp(start, start + 1))
}

fn integer(start: usize) -> Expression {
    Expression::Integer(1, sp(start, start + 1))
}

fn string(start: usize) -> Expression {
    Expression::String("y".to_string(), sp(start, start + 3))
}

fn item(expr: Expression) -> SelectExpr {
    SelectExpr { expr, as_: None }
}

fn aliased(expr: Expression, alias: &str, start: usize) -> SelectExpr {
    SelectExpr { expr, as_: Some(ident(alias, start)) }
}

fn table(n: &str, start: usize) -> TableReference {
    TableReference::Table { identifier: ident(n, start), as_: None }
}

fn select(span: Span, items: Vec<SelectExpr>, from: Vec<TableReference>) -> Select {
    Select {
        span,
        flags: vec![],
        select_exprs: items,
        table_references: if from.is_empty() { None } else { Some(from) },
        where_: None,
        group_by: None,
        order_by: None,
        limit: None,
    }
}

fn out(name: Option<&str>, type_: FullType, span: Span) -> SelectTypeColumn {
    SelectTypeColumn { name: name.map(|n| n.to_string()), type_, span }
}

fn col(n: &str, type_: FullType) -> Column {
    Column { identifier: n.to_string(), type_, auto_increment: false }
}

/// `t(id integer not null, name string)`, `a(x integer not null, y bool)`,
/// `b(x string, z float not null)`.
fn catalog() -> Schemas {
    Schemas {
        schemas: vec![
            Schema {
                name: "t".to_string(),
                view: false,
                columns: vec![
                    col("id", base(BaseType::Integer, true)),
                    col("name", base(BaseType::String, false)),
                ],
            },
            Schema {
                name: "a".to_string(),
                view: false,
                columns: vec![
                    col("x", base(BaseType::Integer, true)),
                    col("y", base(BaseType::Bool, false)),
                ],
            },
            Schema {
                name: "b".to_string(),
                view: false,
                columns: vec![
                    col("x", base(BaseType::String, false)),
                    col("z", base(BaseType::Float, true)),
                ],
            },
        ],
    }
}

fn run(s: &Select) -> (SelectType, Vec<Issue>, Vec<(ArgumentKey, FullType)>) {
    let schemas = catalog();
    let mut typer = Typer::new(&schemas, &OPTIONS);
    let t = type_select(&mut typer, s, true);
    assert!(typer.reference_types.is_empty());
    (t, typer.issues, typer.arg_types)
}

#[test]
fn select_star_yields_the_columns_of_the_table() {
    // SELECT * FROM t
    let s = select(sp(0, 15), vec![item(star(7))], vec![table("t", 14)]);
    let (t, issues, _) = run(&s);
    assert_eq!(issues, vec![]);
    assert_eq!(
        t.columns,
        vec![
            out(Some("id"), base(BaseType::Integer, true), sp(7, 8)),
            out(Some("name"), base(BaseType::String, false), sp(7, 8)),
        ]
    );
    assert_eq!(t.select_span, sp(0, 15));
}

#[test]
fn select_star_yields_the_columns_of_every_table_in_order() {
    // SELECT * FROM b, t
    let s = select(sp(0, 18), vec![item(star(7))], vec![table("b", 14), table("t", 17)]);
    let (t, issues, _) = run(&s);
    assert_eq!(issues, vec![]);
    let names: Vec<Option<String>> = t.columns.iter().map(|c| c.name.clone()).collect();
    assert_eq!(
        names,
        vec![
            Some("x".to_string()),
            Some("z".to_string()),
            Some("id".to_string()),
            Some("name".to_string())
        ]
    );
    assert_eq!(t.columns[1].type_, base(BaseType::Float, true));
}

#[test]
fn select_star_without_tables_yields_nothing() {
    let s = select(sp(0, 8), vec![item(star(7))], vec![]);
    let (t, issues, _) = run(&s);
    assert_eq!(issues, vec![]);
    assert_eq!(t.columns, vec![]);
}

#[test]
fn select_of_an_ambiguous_column() {
    // SELECT x FROM a, b
    let s = select(sp(0, 18), vec![item(column("x", 7))], vec![table("a", 14), table("b", 17)]);
    let (t, issues, _) = run(&s);
    assert_eq!(
        issues,
        vec![Issue {
            level: Level::Error,
            message: Message::AmbiguousReference,
            span: sp(7, 8),
            fragments: vec![
                frag(Message::DefinedHere, sp(14, 15)),
                frag(Message::DefinedHere, sp(17, 18)),
            ],
        }]
    );
    assert_eq!(t.columns, vec![out(Some("x"), FullType::invalid(), sp(7, 8))]);
}

#[test]
fn select_of_named_columns() {
    // SELECT id, name AS n, t.id, t.name AS m, missing FROM t
    let s = select(
        sp(0, 60),
        vec![
            item(column("id", 7)),
            aliased(column("name", 11), "n", 19),
            item(Expression::Identifier(vec![name("t", 22), name("id", 24)], sp(22, 26))),
            aliased(
                Expression::Identifier(vec![name("t", 28), name("name", 30)], sp(28, 34)),
                "m",
                38,
            ),
            item(column("missing", 41)),
        ],
        vec![table("t", 55)],
    );
    let schemas = catalog();
    let mut typer = Typer::new(&schemas, &OPTIONS);
    let t = type_select(&mut typer, &s, false);
    assert_eq!(typer.issues, vec![err(Message::UnknownIdentifier, sp(41, 48))]);
    assert_eq!(
        t.columns,
        vec![
            out(Some("id"), base(BaseType::Integer, true), sp(7, 9)),
            out(Some("n"), base(BaseType::String, false), sp(19, 20)),
            out(Some("id"), base(BaseType::Integer, true), sp(24, 26)),
            out(Some("m"), base(BaseType::String, false), sp(38, 39)),
            out(Some("missing"), FullType::invalid(), sp(41, 48)),
        ]
    );
}

#[test]
fn table_star_yields_the_columns_of_that_table() {
    // SELECT b.* FROM a, b
    let both = |t: &str| {
        select(
            sp(0, 20),
            vec![item(Expression::Identifier(
                vec![name(t, 7), IdentifierPart::Star(sp(9, 10))],
                sp(7, 10),
            ))],
            vec![table("a", 16), table("b", 19)],
        )
    };
    let (t, issues, _) = run(&both("b"));
    assert_eq!(issues, vec![]);
    assert_eq!(
        t.columns,
        vec![
            out(Some("x"), base(BaseType::String, false), sp(9, 10)),
            out(Some("z"), base(BaseType::Float, true), sp(9, 10)),
        ]
    );
    let (t, issues, _) = run(&both("c"));
    assert_eq!(issues, vec![err(Message::UnknownTable, sp(7, 8))]);
    assert_eq!(t.columns, vec![]);
}

#[test]
fn star_cannot_have_an_alias() {
    let schemas = catalog();
    let mut typer = Typer::new(&schemas, &OPTIONS);
    type_reference(&mut typer, &table("t", 14), false);
    let alias = Some(ident("s", 12));
    let columns = resolve_kleene_identifier(
        &mut typer,
        &vec![IdentifierPart::Star(sp(7, 8))],
        sp(7, 8),
        &alias,
    );
    assert_eq!(columns.len(), 2);
    assert_eq!(columns[0].name, Some("id".to_string()));
    assert!(!columns[0].aliased);
    let columns = resolve_kleene_identifier(
        &mut typer,
        &vec![name("t", 5), IdentifierPart::Star(sp(7, 8))],
        sp(5, 8),
        &alias,
    );
    assert_eq!(columns.len(), 2);
    let columns = resolve_kleene_identifier(
        &mut typer,
        &vec![name("u", 5), IdentifierPart::Star(sp(7, 8))],
        sp(5, 8),
        &alias,
    );
    assert_eq!(columns.len(), 0);
    assert_eq!(
        typer.issues,
        vec![
            err(Message::AsNotSupportedForStar, sp(12, 13)),
            err(Message::AsNotSupportedForStar, sp(12, 13)),
            err(Message::AsNotSupportedForStar, sp(12, 13)),
            err(Message::UnknownTable, sp(5, 6)),
        ]
    );
}

#[test]
fn identifiers_of_other_shapes_are_errors() {
    let schemas = catalog();
    let mut typer = Typer::new(&schemas, &OPTIONS);
    type_reference(&mut typer, &table("t", 14), false);
    let a = resolve_kleene_identifier(
        &mut typer,
        &vec![IdentifierPart::Star(sp(7, 8)), name("t", 9)],
        sp(7, 10),
        &None,
    );
    let b = resolve_kleene_identifier(&mut typer, &vec![], sp(3, 4), &None);
    let c = resolve_kleene_identifier(
        &mut typer,
        &vec![name("a", 0), name("b", 2), name("c", 4)],
        sp(0, 5),
        &None,
    );
    assert!(a.is_empty() && b.is_empty() && c.is_empty());
    assert_eq!(
        typer.issues,
        vec![
            err(Message::NotSupportedHere, sp(7, 8)),
            err(Message::InvalidIdentifier, sp(3, 4)),
            err(Message::InvalidIdentifier, sp(0, 5)),
        ]
    );
}

#[test]
fn an_expression_without_alias_is_an_unnamed_column() {
    // SELECT 1, 'y' AS s
    let s = select(sp(0, 18), vec![item(integer(7)), aliased(string(10), "s", 17)], vec![]);
    let (t, issues, _) = run(&s);
    assert_eq!(issues, vec![warn(Message::UnnamedColumn, sp(7, 8))]);
    assert_eq!(
        t.columns,
        vec![
            out(None, base(BaseType::Integer, true), sp(0, 0)),
            out(Some("s"), base(BaseType::String, true), sp(17, 18)),
        ]
    );
}

#[test]
fn repeated_names_are_warned_of_after_all_items() {
    // SELECT id, 1 AS id, missing, name AS id FROM t
    let s = select(
        sp(0, 50),
        vec![
            item(column("id", 7)),
            aliased(integer(11), "id", 16),
            item(column("missing", 20)),
            aliased(column("name", 29), "id", 37),
        ],
        vec![table("t", 45)],
    );
    let duplicate = |at: Span, earlier: Span| Issue {
        level: Level::Warning,
        message: Message::MultipleColumnsWithName("id".to_string()),
        span: at,
        fragments: vec![frag(Message::AlsoDefinedHere, earlier)],
    };
    let (t, issues, _) = run(&s);
    assert_eq!(t.columns.len(), 4);
    assert_eq!(
        issues,
        vec![
            err(Message::UnknownIdentifier, sp(20, 27)),
            duplicate(sp(16, 18), sp(7, 9)),
            duplicate(sp(37, 39), sp(7, 9)),
            duplicate(sp(37, 39), sp(16, 18)),
        ]
    );
    let schemas = catalog();
    let mut typer = Typer::new(&schemas, &OPTIONS);
    type_select(&mut typer, &s, false);
    assert_eq!(typer.issues, vec![err(Message::UnknownIdentifier, sp(20, 27))]);
}

#[test]
fn select_exprs_brings_aliases_into_scope() {
    let schemas = catalog();
    let mut typer = Typer::new(&schemas, &OPTIONS);
    type_reference(&mut typer, &table("t", 40), false);
    let items = vec![
        item(column("id", 7)),
        aliased(column("name", 11), "n", 19),
        aliased(integer(22), "one", 27),
        item(string(32)),
    ];
    let columns = type_select_exprs(&mut typer, &items, sp(0, 6), false);
    assert_eq!(columns.len(), 4);
    assert_eq!(typer.reference_types.len(), 2);
    let scope = &typer.reference_types[1];
    assert_eq!(scope.name, None);
    assert_eq!(scope.span, sp(7, 35));
    assert_eq!(
        scope.columns,
        vec![
            ("n".to_string(), base(BaseType::String, false)),
            ("one".to_string(), base(BaseType::Integer, true)),
        ]
    );
    // The span of the clause stands in where the list is empty.
    let columns = type_select_exprs(&mut typer, &vec![], sp(50, 59), true);
    assert_eq!(columns, vec![]);
    assert_eq!(typer.reference_types[2].span, sp(50, 59));
}

#[test]
fn later_clauses_see_the_aliases() {
    // SELECT id AS i FROM t WHERE i = 1 GROUP BY i ORDER BY i, nothing
    let mut s = select(sp(0, 70), vec![aliased(column("id", 7), "i", 13)], vec![table("t", 20)]);
    s.where_ = Some(Expression::Binary {
        op: BinaryOperator::Eq,
        lhs: Box::new(column("i", 28)),
        rhs: Box::new(integer(32)),
        span: sp(28, 33),
    });
    s.group_by = Some(vec![column("i", 43)]);
    s.order_by = Some(vec![column("i", 54), column("nothing", 57)]);
    let (t, issues, _) = run(&s);
    assert_eq!(t.columns, vec![out(Some("i"), base(BaseType::Integer, true), sp(13, 14))]);
    assert_eq!(
        issues,
        vec![
            // The alias is not in scope in WHERE.
            err(Message::UnknownIdentifier, sp(28, 29)),
            err(
                Message::IncompatibleTypes,
                sp(28, 33)
            )
            .frag(Message::OfType(Type::Invalid), sp(28, 29))
            .frag(Message::OfType(Type::Base(BaseType::Integer)), sp(32, 33)),
            err(Message::UnknownIdentifier, sp(57, 64)),
        ]
    );
}

#[test]
fn where_must_be_a_boolean() {
    let mut s = select(sp(0, 40), vec![item(column("id", 7))], vec![table("t", 15)]);
    s.where_ = Some(column("name", 23));
    let (_, issues, _) = run(&s);
    assert_eq!(
        issues,
        vec![err(
            Message::ExpectedType {
                expected: Type::Base(BaseType::Bool),
                given: Type::Base(BaseType::String)
            },
            sp(23, 27)
        )]
    );
    s.where_ = Some(Expression::Arg(0, sp(23, 24)));
    let (_, issues, args) = run(&s);
    assert_eq!(issues, vec![]);
    assert_eq!(args, vec![(ArgumentKey::Index(0), base(BaseType::Bool, false))]);
}

#[test]
fn unsupported_modifiers_are_reported() {
    let schemas = catalog();
    let mut typer = Typer::new(&schemas, &OPTIONS);
    let flags = vec![
        SelectFlag::All(sp(1, 2)),
        SelectFlag::HighPriority(sp(2, 3)),
        SelectFlag::Distinct(sp(3, 4)),
        SelectFlag::SqlSmallResult(sp(4, 5)),
        SelectFlag::SqlBigResult(sp(5, 6)),
        SelectFlag::DistinctRow(sp(6, 7)),
        SelectFlag::SqlBufferResult(sp(7, 8)),
        SelectFlag::SqlNoCache(sp(8, 9)),
        SelectFlag::StraightJoin(sp(9, 10)),
        SelectFlag::SqlCalcFoundRows(sp(10, 11)),
    ];
    type_select_flags(&mut typer, &flags);
    assert_eq!(
        typer.issues,
        vec![
            err(Message::NotImplemented, sp(1, 2)),
            err(Message::NotImplemented, sp(3, 4)),
            err(Message::NotImplemented, sp(6, 7)),
            err(Message::NotImplemented, sp(9, 10)),
        ]
    );
    let mut s = select(sp(0, 30), vec![item(column("id", 16))], vec![table("t", 24)]);
    s.flags = vec![SelectFlag::Distinct(sp(7, 15))];
    let (t, issues, _) = run(&s);
    assert_eq!(issues, vec![err(Message::NotImplemented, sp(7, 15))]);
    assert_eq!(t.columns.len(), 1);
}

#[test]
fn limit_takes_integers() {
    let schemas = catalog();
    let mut typer = Typer::new(&schemas, &OPTIONS);
    type_limit(&mut typer, &None);
    type_limit(&mut typer, &Some(Limit { offset: None, count: integer(5) }));
    type_limit(&mut typer, &Some(Limit { offset: Some(integer(5)), count: integer(8) }));
    assert_eq!(typer.issues, vec![]);
    type_limit(
        &mut typer,
        &Some(Limit { offset: Some(string(5)), count: Expression::Float(sp(10, 13)) }),
    );
    assert_eq!(
        typer.issues,
        vec![
            err(Message::ExpectedIntegerType(Type::Base(BaseType::String)), sp(5, 8)),
            err(Message::ExpectedIntegerType(Type::Base(BaseType::Float)), sp(10, 13)),
        ]
    );
    type_limit(
        &mut typer,
        &Some(Limit { offset: Some(Expression::Arg(1, sp(5, 6))), count: Expression::Arg(0, sp(8, 9)) }),
    );
    assert_eq!(typer.issues.len(), 2);
    assert_eq!(
        typer.arg_types,
        vec![
            (ArgumentKey::Index(1), base(BaseType::Integer, false)),
            (ArgumentKey::Index(0), base(BaseType::Integer, false)),
        ]
    );
}

#[test]
fn a_select_does_not_leak_its_references() {
    let schemas = catalog();
    let mut typer = Typer::new(&schemas, &OPTIONS);
    typer.reference_types.push(ReferenceType {
        name: Some("outer".to_string()),
        span: sp(90, 95),
        columns: vec![("o".to_string(), base(BaseType::Date, true))],
    });
    // SELECT o, id FROM t
    let s = select(
        sp(0, 20),
        vec![item(column("o", 7)), aliased(column("id", 10), "i", 16)],
        vec![table("t", 25)],
    );
    let t = type_select(&mut typer, &s, true);
    assert_eq!(typer.issues, vec![]);
    assert_eq!(t.columns[0].type_, base(BaseType::Date, true));
    assert_eq!(typer.reference_types.len(), 1);
    assert_eq!(typer.reference_types[0].name, Some("outer".to_string()));
    assert_eq!(typer.reference_types[0].columns.len(), 1);
}

#[test]
fn references_of_a_from_clause() {
    let schemas = catalog();
    let mut typer = Typer::new(&schemas, &OPTIONS);
    type_reference(&mut typer, &table("t", 5), false);
    type_reference(
        &mut typer,
        &TableReference::Table { identifier: ident("a", 8), as_: Some(ident("t", 13)) },
        false,
    );
    type_reference(&mut typer, &table("nothing", 20), false);
    type_reference(&mut typer, &TableReference::Unsupported(sp(30, 35)), false);
    type_reference(&mut typer, &table("b", 40), true);
    assert_eq!(
        typer.issues,
        vec![
            err(Message::DuplicateDefinitions, sp(13, 14)).frag(Message::AlreadyDefinedHere, sp(5, 6)),
            err(Message::UnknownTable, sp(20, 27)),
            err(Message::NotImplemented, sp(30, 35)),
        ]
    );
    assert_eq!(typer.reference_types.len(), 3);
    assert_eq!(typer.reference_types[0].name, Some("t".to_string()));
    assert_eq!(typer.reference_types[0].span, sp(5, 6));
    assert_eq!(
        typer.reference_types[0].columns,
        vec![
            ("id".to_string(), base(BaseType::Integer, true)),
            ("name".to_string(), base(BaseType::String, false)),
        ]
    );
    assert_eq!(typer.reference_types[1].name, Some("t".to_string()));
    assert_eq!(typer.reference_types[1].span, sp(13, 14));
    assert_eq!(typer.reference_types[1].columns[0].0, "x".to_string());
    assert_eq!(
        typer.reference_types[2].columns,
        vec![
            ("x".to_string(), base(BaseType::String, false)),
            ("z".to_string(), base(BaseType::Float, false)),
        ]
    );
}

#[test]
fn an_outer_join_makes_the_other_side_nullable() {
    let join = |join: JoinType| TableReference::Join {
        join,
        left: Box::new(table("a", 5)),
        right: Box::new(table("b", 17)),
        on: Some(Expression::Binary {
            op: BinaryOperator::Eq,
            lhs: Box::new(column("y", 22)),
            rhs: Box::new(column("z", 26)),
            span: sp(22, 27),
        }),
    };
    let not_null = |join_type: JoinType| {
        let schemas = catalog();
        let mut typer = Typer::new(&schemas, &OPTIONS);
        type_reference(&mut typer, &join(join_type), false);
        assert_eq!(typer.issues.len(), 1);
        assert_eq!(typer.issues[0].message, Message::IncompatibleTypes);
        assert_eq!(typer.reference_types.len(), 2);
        (typer.reference_types[0].columns[0].1.not_null, typer.reference_types[1].columns[1].1.not_null)
    };
    assert_eq!(not_null(JoinType::Inner), (true, true));
    assert_eq!(not_null(JoinType::Cross), (true, true));
    assert_eq!(not_null(JoinType::Normal), (true, true));
    assert_eq!(not_null(JoinType::Left), (true, false));
    assert_eq!(not_null(JoinType::NaturalLeft), (true, false));
    assert_eq!(not_null(JoinType::Right), (false, true));
    assert_eq!(not_null(JoinType::NaturalRight), (false, true));
}

#[test]
fn a_subquery_in_from_brings_its_named_columns_into_scope() {
    // SELECT * FROM (SELECT id AS i, 1, name FROM t) AS s
    let inner = select(
        sp(15, 45),
        vec![aliased(column("id", 22), "i", 28), item(integer(31)), item(column("name", 34))],
        vec![table("t", 44)],
    );
    let s = select(
        sp(0, 52),
        vec![item(star(7))],
        vec![TableReference::Query {
            query: Box::new(Statement::Select(inner)),
            as_: Some(ident("s", 51)),
        }],
    );
    let (t, issues, _) = run(&s);
    assert_eq!(issues, vec![warn(Message::UnnamedColumn, sp(31, 32))]);
    assert_eq!(
        t.columns,
        vec![
            out(Some("i"), base(BaseType::Integer, true), sp(7, 8)),
            out(Some("name"), base(BaseType::String, false), sp(7, 8)),
        ]
    );
}

#[test]
fn a_subquery_as_a_value_is_nullable() {
    // SELECT (SELECT id FROM t) AS v, (SELECT * FROM t) AS w
    let one = select(sp(8, 24), vec![item(column("id", 15))], vec![table("t", 23)]);
    let two = select(sp(33, 48), vec![item(star(40))], vec![table("t", 47)]);
    let s = select(
        sp(0, 55),
        vec![
            aliased(Expression::Subquery(Box::new(Statement::Select(one))), "v", 29),
            aliased(Expression::Subquery(Box::new(Statement::Select(two))), "w", 53),
        ],
        vec![],
    );
    let (t, issues, _) = run(&s);
    assert_eq!(issues, vec![err(Message::SubqueryColumns, sp(33, 48))]);
    assert_eq!(
        t.columns,
        vec![
            out(Some("v"), base(BaseType::Integer, false), sp(29, 30)),
            out(Some("w"), FullType::invalid(), sp(53, 54)),
        ]
    );
}

fn union_of(left: Select, right: Select) -> Union {
    let span = left.span.join(right.span);
    Union {
        span,
        left: Box::new(Statement::Select(left)),
        with: vec![UnionWith {
            union_span: sp(left_end(span), left_end(span) + 5),
            union_statement: Box::new(Statement::Select(right)),
        }],
        order_by: None,
        limit: None,
    }
}

fn left_end(span: Span) -> usize {
    span.start + 13
}

fn run_union(u: &Union) -> (SelectType, Vec<Issue>) {
    let schemas = catalog();
    let mut typer = Typer::new(&schemas, &OPTIONS);
    let t = type_union(&mut typer, u);
    assert!(typer.reference_types.is_empty());
    (t, typer.issues)
}

#[test]
fn union_of_incompatible_types() {
    // SELECT 1 AS x UNION SELECT 'y' AS x
    let left = select(sp(0, 13), vec![aliased(integer(7), "x", 12)], vec![]);
    let right = select(sp(20, 35), vec![aliased(string(27), "x", 34)], vec![]);
    let (t, issues) = run_union(&union_of(left, right));
    assert_eq!(
        issues,
        vec![Issue {
            level: Level::Error,
            message: Message::IncompatibleTypesInUnion,
            span: sp(13, 18),
            fragments: vec![
                frag(Message::ColumnOfType(0, Type::Base(BaseType::Integer)), sp(0, 13)),
                frag(Message::ColumnOfType(0, Type::Base(BaseType::String)), sp(20, 35)),
            ],
        }]
    );
    assert_eq!(t.columns, vec![out(Some("x"), base(BaseType::Integer, true), sp(12, 13))]);
    assert_eq!(t.select_span, sp(0, 35));
}

#[test]
fn union_of_compatible_columns() {
    // SELECT id, name FROM t UNION SELECT NULL AS id, 'y' AS name
    let left = select(
        sp(0, 22),
        vec![item(column("id", 7)), item(column("name", 11))],
        vec![table("t", 21)],
    );
    let right = select(
        sp(29, 60),
        vec![aliased(Expression::Null(sp(36, 40)), "id", 44), aliased(string(48), "name", 55)],
        vec![],
    );
    let (t, issues) = run_union(&union_of(left, right));
    assert_eq!(issues, vec![]);
    assert_eq!(
        t.columns,
        vec![
            out(Some("id"), base(BaseType::Integer, false), sp(7, 9)),
            out(Some("name"), base(BaseType::String, false), sp(11, 15)),
        ]
    );
}

#[test]
fn union_of_different_names() {
    let named = |n: Option<&str>, start: usize| {
        let e = integer(start + 7);
        select(
            sp(start, start + 13),
            vec![match n {
                Some(n) => aliased(e, n, start + 12),
                None => item(e),
            }],
            vec![],
        )
    };
    let names = |l: Message, r: Message| Issue {
        level: Level::Error,
        message: Message::IncompatibleNamesInUnion,
        span: sp(13, 18),
        fragments: vec![frag(l, sp(0, 13)), frag(r, sp(20, 33))],
    };
    let (_, issues) = run_union(&union_of(named(Some("a"), 0), named(Some("b"), 20)));
    assert_eq!(
        issues,
        vec![names(
            Message::ColumnNamed(0, "a".to_string()),
            Message::ColumnNamed(0, "b".to_string())
        )]
    );
    let (_, issues) = run_union(&union_of(named(Some("a"), 0), named(None, 20)));
    assert_eq!(
        issues,
        vec![
            warn(Message::UnnamedColumn, sp(27, 28)),
            names(Message::ColumnNamed(0, "a".to_string()), Message::ColumnUnnamed(0)),
        ]
    );
    let (_, issues) = run_union(&union_of(named(None, 0), named(Some("b"), 20)));
    assert_eq!(
        issues,
        vec![
            warn(Message::UnnamedColumn, sp(7, 8)),
            names(Message::ColumnUnnamed(0), Message::ColumnNamed(0, "b".to_string())),
        ]
    );
    let (_, issues) = run_union(&union_of(named(None, 0), named(None, 20)));
    assert_eq!(
        issues,
        vec![warn(Message::UnnamedColumn, sp(7, 8)), warn(Message::UnnamedColumn, sp(27, 28))]
    );
}

#[test]
fn union_of_different_lengths() {
    let one = |start: usize| select(sp(start, start + 13), vec![aliased(integer(start + 7), "a", start + 12)], vec![]);
    let two = |start: usize| {
        select(
            sp(start, start + 13),
            vec![aliased(integer(start + 7), "a", start + 12), item(integer(start + 9)), aliased(integer(start + 10), "c", start + 11)],
            vec![],
        )
    };
    let only = |i: usize, n: Option<&str>, side: Span| Issue {
        level: Level::Error,
        message: Message::IncompatibleTypesInUnion,
        span: sp(13, 18),
        fragments: vec![frag(Message::ColumnOnlyOnThisSide(i, n.map(|n| n.to_string())), side)],
    };
    let (t, issues) = run_union(&union_of(one(0), two(20)));
    assert_eq!(t.columns.len(), 1);
    assert_eq!(
        issues,
        vec![
            warn(Message::UnnamedColumn, sp(29, 30)),
            only(1, None, sp(20, 33)),
            only(2, Some("c"), sp(20, 33)),
        ]
    );
    let (t, issues) = run_union(&union_of(two(0), one(20)));
    assert_eq!(t.columns.len(), 3);
    assert_eq!(
        issues,
        vec![
            warn(Message::UnnamedColumn, sp(9, 10)),
            only(1, None, sp(0, 13)),
            only(2, Some("c"), sp(0, 13)),
        ]
    );
}

#[test]
fn merge_union_columns_replaces_the_types_that_unify() {
    let schemas = catalog();
    let mut typer = Typer::new(&schemas, &OPTIONS);
    let mut left = vec![
        out(Some("a"), FullType::new(Type::I32, true), sp(1, 2)),
        out(Some("b"), base(BaseType::String, true), sp(3, 4)),
        out(None, FullType::new(Type::Null, false), sp(5, 6)),
    ];
    let right = vec![
        out(Some("a"), FullType::new(Type::U8, false), sp(11, 12)),
        out(Some("b"), base(BaseType::Bool, true), sp(13, 14)),
        out(None, base(BaseType::Date, true), sp(15, 16)),
    ];
    merge_union_columns(&mut typer, &mut left, &right, sp(0, 7), sp(8, 9), sp(10, 17));
    assert_eq!(
        left,
        vec![
            out(Some("a"), base(BaseType::Integer, false), sp(1, 2)),
            out(Some("b"), base(BaseType::String, true), sp(3, 4)),
            out(None, base(BaseType::Date, false), sp(5, 6)),
        ]
    );
    assert_eq!(typer.issues.len(), 1);
    assert_eq!(typer.issues[0].span, sp(8, 9));
}

#[test]
fn a_union_folds_every_branch_and_sees_its_named_columns() {
    // SELECT id, 1 FROM t UNION SELECT 2 AS id, 3 UNION SELECT 'y' AS id, 4 ORDER BY id, nothing LIMIT 5
    let a = select(sp(0, 19), vec![item(column("id", 7)), item(integer(11))], vec![table("t", 18)]);
    let b = select(sp(26, 43), vec![aliased(integer(33), "id", 38), item(integer(42))], vec![]);
    let c = select(sp(50, 69), vec![aliased(string(57), "id", 64), item(integer(68))], vec![]);
    let u = Union {
        span: sp(0, 98),
        left: Box::new(Statement::Select(a)),
        with: vec![
            UnionWith { union_span: sp(20, 25), union_statement: Box::new(Statement::Select(b)) },
            UnionWith { union_span: sp(44, 49), union_statement: Box::new(Statement::Select(c)) },
        ],
        order_by: Some(vec![column("id", 79), column("nothing", 83)]),
        limit: Some(Limit { offset: None, count: integer(97) }),
    };
    let (t, issues) = run_union(&u);
    assert_eq!(
        t.columns,
        vec![
            out(Some("id"), base(BaseType::Integer, true), sp(7, 9)),
            out(None, base(BaseType::Integer, true), sp(0, 0)),
        ]
    );
    assert_eq!(t.select_span, sp(0, 98));
    assert_eq!(
        issues,
        vec![
            warn(Message::UnnamedColumn, sp(11, 12)),
            warn(Message::UnnamedColumn, sp(42, 43)),
            warn(Message::UnnamedColumn, sp(68, 69)),
            Issue {
                level: Level::Error,
                message: Message::IncompatibleTypesInUnion,
                span: sp(44, 49),
                fragments: vec![
                    // The left side has grown to span the first two branches.
                    frag(Message::ColumnOfType(0, Type::Base(BaseType::Integer)), sp(0, 43)),
                    frag(Message::ColumnOfType(0, Type::Base(BaseType::String)), sp(50, 69)),
                ],
            },
            err(Message::UnknownIdentifier, sp(83, 90)),
        ]
    );
}

#[test]
fn nested_unions() {
    let a = select(sp(0, 13), vec![aliased(integer(7), "x", 12)], vec![]);
    let b = select(sp(20, 33), vec![aliased(integer(27), "x", 32)], vec![]);
    let c = select(sp(40, 53), vec![aliased(Expression::Float(sp(47, 50)), "x", 52)], vec![]);
    let inner = union_of(a, b);
    let outer = Union {
        span: sp(0, 53),
        left: Box::new(Statement::Union(inner)),
        with: vec![UnionWith {
            union_span: sp(34, 39),
            union_statement: Box::new(Statement::Select(c)),
        }],
        order_by: None,
        limit: None,
    };
    let schemas = catalog();
    let mut typer = Typer::new(&schemas, &OPTIONS);
    let t = type_union_select(&mut typer, &Statement::Union(outer));
    assert_eq!(t.columns.len(), 1);
    assert_eq!(typer.issues.len(), 1);
    assert_eq!(
        typer.issues[0].fragments,
        vec![
            frag(Message::ColumnOfType(0, Type::Base(BaseType::Integer)), sp(0, 33)),
            frag(Message::ColumnOfType(0, Type::Base(BaseType::Float)), sp(40, 53)),
        ]
    );
}

#[test]
fn other_statements_are_an_internal_error() {
    let schemas = catalog();
    let mut typer = Typer::new(&schemas, &OPTIONS);
    let t = type_union_select(&mut typer, &Statement::Other(sp(4, 30)));
    assert_eq!(t.columns, vec![]);
    assert_eq!(t.select_span, sp(4, 30));
    assert_eq!(
        typer.issues,
        vec![Issue {
            level: Level::Internal,
            message: Message::UnexpectedStatement,
            span: sp(4, 30),
            fragments: vec![]
        }]
    );
    // A union of statements that are no queries has no columns, and is typed all the same.
    let u = Union {
        span: sp(0, 50),
        left: Box::new(Statement::Other(sp(0, 10))),
        with: vec![UnionWith {
            union_span: sp(11, 16),
            union_statement: Box::new(Statement::Other(sp(17, 50))),
        }],
        order_by: None,
        limit: None,
    };
    let t = type_union(&mut typer, &u);
    assert_eq!(t.columns, vec![]);
    assert_eq!(typer.issues.len(), 3);
    assert!(typer.reference_types.is_empty());
}

#[test]
fn add_output_column_collects_aliases_and_duplicates() {
    let mut output = SelectOutput { columns: vec![], scope: vec![], duplicates: vec![] };
    let kleene = |n: Option<&str>, aliased: bool, start: usize| KleeneColumn {
        name: n.map(|n| n.to_string()),
        type_: base(BaseType::Integer, true),
        span: sp(start, start + 1),
        aliased,
    };
    add_output_column(&mut output, &kleene(Some("a"), false, 1), true);
    add_output_column(&mut output, &kleene(None, false, 2), true);
    add_output_column(&mut output, &kleene(Some("a"), true, 3), true);
    add_output_column(&mut output, &kleene(None, false, 4), true);
    add_output_column(&mut output, &kleene(Some("a"), true, 5), false);
    assert_eq!(output.columns.len(), 5);
    assert_eq!(output.scope.len(), 2);
    assert_eq!(
        output.duplicates,
        vec![warn(Message::MultipleColumnsWithName("a".to_string()), sp(3, 4))
            .frag(Message::AlsoDefinedHere, sp(1, 2))]
    );
}

#[test]
fn aggregates_in_a_select_list_are_nullable() {
    // SELECT MAX(id) AS m FROM t
    let s = select(
        sp(0, 26),
        vec![aliased(
            Expression::Function(Function::Max, vec![column("id", 11)], sp(7, 14)),
            "m",
            18,
        )],
        vec![table("t", 25)],
    );
    let (t, issues, _) = run(&s);
    assert_eq!(issues, vec![]);
    assert_eq!(t.columns, vec![out(Some("m"), base(BaseType::Integer, false), sp(18, 19))]);
}
