//! The typing context and the unification of types.
//!
//! The context holds the diagnostics raised so far, the stack of references
//! whose columns are in scope, and what has been learned of the placeholders.
//! Typing changes it in two ways only, diagnostics are appended and
//! placeholders are constrained, so every typing function is described by the
//! [`Effects`] it has.

use vstd::prelude::*;
use crate::issue::{Issue, IssueView, Message, MessageView};
use crate::schema::{SchemaView, Schemas};
use crate::span::Span;
use crate::types::{ArgRef, ArgType, BaseType, FullType, FullTypeView, Type, TypeView, clone_args};
use crate::views::{lemma_deep_view_append, lemma_deep_view_push, lemma_deep_view_update};

verus! {

/// The SQL dialect of the statements.
#[derive(Clone, Copy, Debug, PartialEq, Eq, Structural)]
pub enum SqlDialect {
    MariaDb,
    PostgreSql,
    Sqlite,
}

/// Options of a run of the typer.
#[derive(Clone, Copy, Debug, PartialEq, Eq, Structural)]
pub struct TypeOptions {
    pub dialect: SqlDialect,
}

/// What identifies a placeholder.
#[derive(Clone, Debug, PartialEq, Eq)]
pub enum ArgumentKey {
    /// Its position among the placeholders of the statement.
    Index(usize),
    /// Its name.
    Identifier(String),
}

/// Mathematical model of an [`ArgumentKey`].
pub enum ArgumentKeyView {
    Index(usize),
    Identifier(Seq<char>),
}

impl View for ArgumentKey {
    type V = ArgumentKeyView;

    open spec fn view(&self) -> ArgumentKeyView {
        match *self {
            ArgumentKey::Index(i) => ArgumentKeyView::Index(i),
            ArgumentKey::Identifier(n) => ArgumentKeyView::Identifier(n@),
        }
    }
}

impl DeepView for ArgumentKey {
    type V = ArgumentKeyView;

    open spec fn deep_view(&self) -> ArgumentKeyView {
        self@
    }
}

/// The columns that one table, subquery or select list brings into scope.
#[derive(Clone, Debug, PartialEq, Eq)]
pub struct ReferenceType {
    /// The name that qualifies the columns; a subquery without alias has none.
    pub name: Option<String>,
    pub span: Span,
    /// The columns in order; a name may occur more than once.
    pub columns: Vec<(String, FullType)>,
}

/// Mathematical model of a [`ReferenceType`].
pub struct ReferenceTypeView {
    pub name: Option<Seq<char>>,
    pub span: Span,
    pub columns: Seq<(Seq<char>, FullTypeView)>,
}

impl View for ReferenceType {
    type V = ReferenceTypeView;

    open spec fn view(&self) -> ReferenceTypeView {
        ReferenceTypeView {
            name: self.name.deep_view(),
            span: self.span,
            columns: self.columns.deep_view(),
        }
    }
}

impl DeepView for ReferenceType {
    type V = ReferenceTypeView;

    open spec fn deep_view(&self) -> ReferenceTypeView {
        self@
    }
}

/// The table of what is known of each placeholder, in the order in which the
/// placeholders were first seen.
pub type ArgTable = Seq<(ArgumentKeyView, FullTypeView)>;

/// One piece of evidence for the type of a placeholder.
pub struct Constraint {
    pub index: usize,
    pub arg_type: ArgType,
    pub t: FullTypeView,
}

/// Index of the first entry for `key` at or after position `from`.
pub open spec fn arg_index(table: ArgTable, key: ArgumentKeyView, from: int) -> Option<int>
    decreases table.len() - from,
{
    if from < 0 || from >= table.len() {
        None
    } else if table[from].0 == key {
        Some(from)
    } else {
        arg_index(table, key, from + 1)
    }
}

/// What the table holds for `key`.
pub open spec fn arg_lookup(table: ArgTable, key: ArgumentKeyView) -> Option<FullTypeView> {
    match arg_index(table, key, 0) {
        Some(i) => Some(table[i].1),
        None => None,
    }
}

/// The entry of a placeholder after one more piece of evidence.
///
/// An entry goes from the wildcard to a category and stays there. While
/// only the wildcard is known, the new type is taken. Once a category is
/// known, a new type of that category is taken, so that what is learned
/// later of its size and nullability is kept; a wildcard, or a type of
/// another category, changes nothing: of conflicting uses the first one
/// counts, and none is reported. The list flag stays once it is set.
pub open spec fn merge_arg(cur: FullTypeView, c: Constraint) -> FullTypeView {
    let kept = if cur.base() == BaseType::Any || c.t.base() == cur.base() {
        c.t
    } else {
        cur
    };
    FullTypeView {
        t: kept.t,
        not_null: kept.not_null,
        list_hack: cur.list_hack || kept.list_hack || c.arg_type == ArgType::ListHack,
    }
}

/// The table after one more piece of evidence. A placeholder that is seen
/// for the first time enters the table as a nullable wildcard.
pub open spec fn constrain(table: ArgTable, c: Constraint) -> ArgTable {
    let key = ArgumentKeyView::Index(c.index);
    match arg_index(table, key, 0) {
        Some(p) => table.update(p, (key, merge_arg(table[p].1, c))),
        None => table.push(
            (key, merge_arg(FullTypeView::new(TypeView::Base(BaseType::Any), false), c)),
        ),
    }
}

/// The table after the first `n` of the constraints `cs`, in order.
pub open spec fn constrain_all(table: ArgTable, cs: Seq<Constraint>, n: nat) -> ArgTable
    decreases n,
{
    if n == 0 || n > cs.len() {
        table
    } else {
        constrain(constrain_all(table, cs, (n - 1) as nat), cs[n - 1])
    }
}

/// What typing does to the context: the diagnostics it appends and the
/// constraints it puts on placeholders, each in order.
pub struct Effects {
    pub issues: Seq<IssueView>,
    pub constraints: Seq<Constraint>,
}

impl Effects {
    pub open spec fn none() -> Effects {
        Effects { issues: Seq::empty(), constraints: Seq::empty() }
    }

    pub open spec fn issue(issue: IssueView) -> Effects {
        Effects { issues: seq![issue], constraints: Seq::empty() }
    }

    pub open spec fn constraints(constraints: Seq<Constraint>) -> Effects {
        Effects { issues: Seq::empty(), constraints }
    }

    /// The effects of `self` followed by those of `next`.
    pub open spec fn chain(self, next: Effects) -> Effects {
        Effects {
            issues: self.issues + next.issues,
            constraints: self.constraints + next.constraints,
        }
    }

    /// `self` followed by `next` where `cond` holds, else `self`.
    pub open spec fn chain_if(self, cond: bool, next: Effects) -> Effects {
        if cond {
            self.chain(next)
        } else {
            self
        }
    }

    /// `self` followed by `issue` where `cond` holds, else `self`.
    pub open spec fn chain_issue_if(self, cond: bool, issue: IssueView) -> Effects {
        if cond {
            self.chain(Effects::issue(issue))
        } else {
            self
        }
    }
}

/// What typing an expression yields: its effects on the context and its type.
pub struct Typed {
    pub effects: Effects,
    pub t: FullTypeView,
}

impl Typed {
    /// A type that is known without any effect.
    pub open spec fn pure(t: FullTypeView) -> Typed {
        Typed { effects: Effects::none(), t }
    }

    /// The error marker, with the diagnostic that reports why.
    pub open spec fn failed(issue: IssueView) -> Typed {
        Typed { effects: Effects::issue(issue), t: FullTypeView::invalid() }
    }
}

/// What typing reads of the context: the catalog and the references in scope.
pub struct Env {
    pub schemas: Seq<SchemaView>,
    pub references: Seq<ReferenceTypeView>,
}

impl Env {
    /// The environment with another stack of references.
    pub open spec fn with_references(self, references: Seq<ReferenceTypeView>) -> Env {
        Env { references, ..self }
    }
}

/// Mathematical model of a [`Typer`].
pub struct TyperView {
    pub issues: Seq<IssueView>,
    pub schemas: Seq<SchemaView>,
    pub reference_types: Seq<ReferenceTypeView>,
    pub arg_types: ArgTable,
    pub dialect: SqlDialect,
}

impl TyperView {
    /// The context after `e`: its diagnostics are appended, its constraints
    /// are merged into the table, and nothing else changes.
    pub open spec fn apply(self, e: Effects) -> TyperView {
        TyperView {
            issues: self.issues + e.issues,
            arg_types: constrain_all(self.arg_types, e.constraints, e.constraints.len()),
            ..self
        }
    }

    pub open spec fn env(self) -> Env {
        Env { schemas: self.schemas, references: self.reference_types }
    }

    /// The context with another stack of references.
    pub open spec fn with_references(self, reference_types: Seq<ReferenceTypeView>) -> TyperView {
        TyperView { reference_types, ..self }
    }
}

/// Merging constraints one list after the other is merging their concatenation.
pub proof fn lemma_constrain_all_concat(
    table: ArgTable,
    a: Seq<Constraint>,
    b: Seq<Constraint>,
    n: nat,
)
    requires
        n <= b.len(),
    ensures
        constrain_all(table, a + b, a.len() + n) == constrain_all(
            constrain_all(table, a, a.len()),
            b,
            n,
        ),
    decreases n,
{
    if n == 0 {
        lemma_constrain_all_prefix(table, a, b, a.len());
    } else {
        lemma_constrain_all_concat(table, a, b, (n - 1) as nat);
        assert((a + b)[a.len() + n - 1] == b[n - 1]);
    }
}

/// The first constraints of a concatenation are those of its first part.
pub proof fn lemma_constrain_all_prefix(
    table: ArgTable,
    a: Seq<Constraint>,
    b: Seq<Constraint>,
    n: nat,
)
    requires
        n <= a.len(),
    ensures
        constrain_all(table, a + b, n) == constrain_all(table, a, n),
    decreases n,
{
    if n > 0 {
        lemma_constrain_all_prefix(table, a, b, (n - 1) as nat);
        assert((a + b)[n - 1] == a[n - 1]);
    }
}

/// Effects in sequence act as their concatenation.
pub broadcast proof fn lemma_apply_chain(st: TyperView, a: Effects, b: Effects)
    ensures
        #[trigger] st.apply(a).apply(b) == st.apply(a.chain(b)),
{
    lemma_constrain_all_concat(st.arg_types, a.constraints, b.constraints, b.constraints.len());
    assert((st.issues + a.issues) + b.issues =~= st.issues + (a.issues + b.issues));
}

/// No effects leave the context as it is.
pub broadcast proof fn lemma_apply_none(st: TyperView)
    ensures
        #[trigger] st.apply(Effects::none()) == st,
{
    assert(st.issues + Seq::<IssueView>::empty() =~= st.issues);
}

/// One diagnostic is appended.
pub broadcast proof fn lemma_apply_issue(st: TyperView, issue: IssueView)
    ensures
        #[trigger] st.apply(Effects::issue(issue)) == (TyperView {
            issues: st.issues.push(issue),
            ..st
        }),
{
    assert(st.issues + seq![issue] =~= st.issues.push(issue));
}

/// Nothing followed by `e` is `e`.
pub broadcast proof fn lemma_none_chain(e: Effects)
    ensures
        #[trigger] Effects::none().chain(e) == e,
        #[trigger] e.chain(Effects::none()) == e,
{
    assert(Seq::<IssueView>::empty() + e.issues =~= e.issues);
    assert(Seq::<Constraint>::empty() + e.constraints =~= e.constraints);
    assert(e.issues + Seq::<IssueView>::empty() =~= e.issues);
    assert(e.constraints + Seq::<Constraint>::empty() =~= e.constraints);
}

/// Sequencing of effects is associative.
pub broadcast proof fn lemma_chain_assoc(a: Effects, b: Effects, c: Effects)
    ensures
        #[trigger] a.chain(b).chain(c) == a.chain(b.chain(c)),
{
    assert((a.issues + b.issues) + c.issues =~= a.issues + (b.issues + c.issues));
    assert((a.constraints + b.constraints) + c.constraints =~= a.constraints + (b.constraints
        + c.constraints));
}

pub broadcast group group_effects {
    lemma_apply_chain,
    lemma_apply_none,
    lemma_apply_issue,
    lemma_none_chain,
    lemma_chain_assoc,
}

/// The category that two categories have in common, if there is one: a
/// wildcard adopts the category of the other side.
pub open spec fn common_base(b1: BaseType, b2: BaseType) -> Option<BaseType> {
    if b1 == BaseType::Any {
        Some(b2)
    } else if b2 == BaseType::Any || b1 == b2 {
        Some(b1)
    } else {
        None
    }
}

/// The unified type of `t1` and `t2`, if they are compatible.
///
/// Two error markers unify to the error marker. `NULL` adopts the type of the
/// other side. Otherwise the categories must agree once wildcards are
/// resolved, and the result is that category; only where it is still the
/// wildcard do the placeholder uses of both sides stay with the type.
pub open spec fn unify(t1: TypeView, t2: TypeView) -> Option<TypeView> {
    if t1 is Invalid && t2 is Invalid {
        Some(TypeView::Invalid)
    } else if t1 is Null {
        Some(t2)
    } else if t2 is Null {
        Some(t1)
    } else {
        match common_base(t1.base(), t2.base()) {
            None => None,
            Some(b) => if b == BaseType::Any && (t1.args() + t2.args()).len() > 0 {
                Some(TypeView::Args(b, t1.args() + t2.args()))
            } else {
                Some(TypeView::Base(b))
            },
        }
    }
}

/// The constraint that the use `a` of a placeholder has the category `b`.
pub open spec fn base_constraint(a: ArgRef, b: BaseType) -> Constraint {
    Constraint { index: a.index, arg_type: a.arg_type, t: FullTypeView::new(TypeView::Base(b), false) }
}

/// What unifying `t1` and `t2` tells of placeholders: where the categories
/// are compared and agree, every placeholder use of either side is
/// constrained to the common category.
pub open spec fn unify_constraints(t1: TypeView, t2: TypeView) -> Seq<Constraint> {
    if (t1 is Invalid && t2 is Invalid) || t1 is Null || t2 is Null {
        Seq::empty()
    } else {
        match common_base(t1.base(), t2.base()) {
            None => Seq::empty(),
            Some(b) => {
                let args = t1.args() + t2.args();
                Seq::new(args.len(), |i: int| base_constraint(args[i], b))
            },
        }
    }
}

/// The constraints that bind every placeholder use of `args` to the type `t`.
pub open spec fn arg_constraints(args: Seq<ArgRef>, t: FullTypeView) -> Seq<Constraint> {
    Seq::new(args.len(), |i: int| Constraint { index: args[i].index, arg_type: args[i].arg_type, t })
}

/// The effects of unifying `t1` and `t2` where a failure is reported as
/// `issue`: placeholders are constrained as by unification, and `issue` is
/// raised where the types do not unify.
pub open spec fn unify_effects(t1: TypeView, t2: TypeView, issue: IssueView) -> Effects {
    Effects::constraints(unify_constraints(t1, t2)).chain_issue_if(unify(t1, t2) is None, issue)
}

/// The effects of checking that a value of type `given` fits where
/// `expected` is wanted: placeholders are constrained as by unification, and
/// an error at `span` is raised where the types do not unify.
pub open spec fn ensure_type_effects(span: Span, given: TypeView, expected: TypeView) -> Effects {
    unify_effects(
        given,
        expected,
        IssueView::err(MessageView::ExpectedType { expected, given }, span),
    )
}

/// [`ensure_type_effects`] against a bare category.
pub open spec fn ensure_base_effects(span: Span, given: TypeView, expected: BaseType) -> Effects {
    ensure_type_effects(span, given, TypeView::Base(expected))
}

/// A context that is `e` past `mid` is `done` followed by `e` past `start`,
/// where `mid` is `done` past `start`.
pub proof fn lemma_advance(start: TyperView, done: Effects, mid: TyperView, e: Effects)
    requires
        mid == start.apply(done),
    ensures
        mid.apply(e) == start.apply(done.chain(e)),
{
    lemma_apply_chain(start, done, e);
}

/// [`lemma_advance`] for a context whose stack of references was replaced.
pub proof fn lemma_advance_in(
    start: TyperView,
    done: Effects,
    refs: Seq<ReferenceTypeView>,
    mid: TyperView,
    e: Effects,
)
    requires
        mid == start.apply(done).with_references(refs),
    ensures
        mid.apply(e) == start.apply(done.chain(e)).with_references(refs),
        mid.env() == start.env().with_references(refs),
{
    lemma_apply_chain(start, done, e);
}

/// Types of the same category, other than the wildcard, unify.
pub proof fn lemma_unify_same_base(a: TypeView, b: TypeView)
    requires
        a.base() == b.base(),
        a.base() != BaseType::Any,
    ensures
        unify(a, b) is Some,
{
}

/// Whether two types unify does not depend on their order, and neither does
/// the category of the unified type.
pub proof fn lemma_unify_commutative(a: TypeView, b: TypeView)
    ensures
        unify(a, b) is Some <==> unify(b, a) is Some,
        unify(a, b) is Some ==> unify(a, b).unwrap().base() == unify(b, a).unwrap().base(),
{
}

/// `NULL` unified with a type yields that type.
pub proof fn lemma_unify_null(x: TypeView)
    ensures
        unify(TypeView::Null, x) == Some(x),
        unify(x, TypeView::Null) == Some(x),
{
}

/// The wildcard unified with a type yields the category of that type, and
/// nothing but its category unless that is the wildcard too.
pub proof fn lemma_unify_any(x: TypeView)
    ensures
        unify(TypeView::Base(BaseType::Any), x) is Some,
        unify(x, TypeView::Base(BaseType::Any)) is Some,
        unify(TypeView::Base(BaseType::Any), x).unwrap().base() == x.base(),
        unify(x, TypeView::Base(BaseType::Any)).unwrap().base() == x.base(),
        x.base() != BaseType::Any ==> unify(TypeView::Base(BaseType::Any), x) == Some(
            TypeView::Base(x.base()),
        ) && unify(x, TypeView::Base(BaseType::Any)) == Some(TypeView::Base(x.base())),
{
    assert(Seq::<ArgRef>::empty() + x.args() =~= x.args());
    assert(x.args() + Seq::<ArgRef>::empty() =~= x.args());
}

/// The error marker unifies with itself, `NULL` and the wildcard only.
pub proof fn lemma_unify_invalid(x: TypeView)
    ensures
        unify(TypeView::Invalid, x) is Some <==> (x is Null || x.base() == BaseType::Any || x.base()
            == BaseType::Invalid),
{
}

/// What [`arg_index`] finds is the first entry for the key: no entry
/// between `from` and it has the key, and where it finds nothing, no entry
/// from `from` on has.
pub proof fn lemma_arg_index_found(table: ArgTable, key: ArgumentKeyView, from: int)
    requires
        0 <= from,
    ensures
        match arg_index(table, key, from) {
            Some(i) => from <= i < table.len() && table[i].0 == key && forall|j: int|
                from <= j < i ==> (#[trigger] table[j]).0 != key,
            None => forall|j: int| from <= j < table.len() ==> (#[trigger] table[j]).0 != key,
        },
    decreases table.len() - from,
{
    if from < table.len() && table[from].0 != key {
        lemma_arg_index_found(table, key, from + 1);
    }
}

/// Replacing what an entry holds, not its key, moves no key.
pub proof fn lemma_arg_index_update(
    table: ArgTable,
    p: int,
    t: FullTypeView,
    key: ArgumentKeyView,
    from: int,
)
    requires
        0 <= p < table.len(),
        0 <= from,
    ensures
        arg_index(table.update(p, (table[p].0, t)), key, from) == arg_index(table, key, from),
    decreases table.len() - from,
{
    if from < table.len() {
        lemma_arg_index_update(table, p, t, key, from + 1);
    }
}

/// Appending an entry moves no key that the table holds.
pub proof fn lemma_arg_index_push(
    table: ArgTable,
    entry: (ArgumentKeyView, FullTypeView),
    key: ArgumentKeyView,
    from: int,
)
    requires
        0 <= from,
        arg_index(table, key, from) is Some,
    ensures
        arg_index(table.push(entry), key, from) == arg_index(table, key, from),
    decreases table.len() - from,
{
    if from < table.len() && table[from].0 != key {
        lemma_arg_index_push(table, entry, key, from + 1);
    }
}

/// Evidence is merged monotonically. A placeholder that the table knows
/// stays in it. Its list flag, once set, stays set. Its category, once it
/// is not the wildcard, stays what it is. And evidence for one placeholder
/// leaves the others as they are.
pub proof fn lemma_constrain_monotonic(table: ArgTable, c: Constraint, key: ArgumentKeyView)
    requires
        arg_lookup(table, key) is Some,
    ensures
        arg_lookup(constrain(table, c), key) is Some,
        arg_lookup(table, key).unwrap().list_hack ==> arg_lookup(
            constrain(table, c),
            key,
        ).unwrap().list_hack,
        arg_lookup(table, key).unwrap().base() != BaseType::Any ==> arg_lookup(
            constrain(table, c),
            key,
        ).unwrap().base() == arg_lookup(table, key).unwrap().base(),
        key != ArgumentKeyView::Index(c.index) ==> arg_lookup(constrain(table, c), key)
            == arg_lookup(table, key),
{
    let ckey = ArgumentKeyView::Index(c.index);
    lemma_arg_index_found(table, key, 0);
    lemma_arg_index_found(table, ckey, 0);
    match arg_index(table, ckey, 0) {
        Some(p) => {
            lemma_arg_index_update(table, p, merge_arg(table[p].1, c), key, 0);
        },
        None => {
            let entry = (ckey, merge_arg(FullTypeView::new(TypeView::Base(BaseType::Any), false), c));
            lemma_arg_index_push(table, entry, key, 0);
        },
    }
}

/// Whether evidence of the category `new` replaces what is stored under
/// the category `stored`: it does where nothing specific is stored yet, or
/// where it is of the category that is stored.
pub open spec fn replaces(stored: BaseType, new: BaseType) -> bool {
    stored == BaseType::Any || new == stored
}

/// After evidence for a placeholder, the table knows the placeholder. It
/// holds the type and nullability of the evidence for it where the
/// placeholder was unknown, where only the wildcard was known of it, or
/// where the evidence is of the category that was known. Where another
/// category was known, the table holds what it held: the first category
/// that is seen of a placeholder is kept, and no conflict is reported.
pub proof fn lemma_constrain_records(table: ArgTable, c: Constraint)
    ensures
        ({
            let key = ArgumentKeyView::Index(c.index);
            let before = arg_lookup(table, key);
            let after = arg_lookup(constrain(table, c), key);
            &&& after is Some
            &&& before is None ==> after.unwrap().t == c.t.t && after.unwrap().not_null
                == c.t.not_null
            &&& before is Some && replaces(before.unwrap().base(), c.t.base()) ==> after.unwrap().t
                == c.t.t && after.unwrap().not_null == c.t.not_null
            &&& before is Some && !replaces(before.unwrap().base(), c.t.base())
                ==> after.unwrap().t == before.unwrap().t && after.unwrap().not_null
                == before.unwrap().not_null
            &&& c.arg_type == ArgType::ListHack ==> after.unwrap().list_hack
        }),
{
    let key = ArgumentKeyView::Index(c.index);
    lemma_arg_index_found(table, key, 0);
    match arg_index(table, key, 0) {
        Some(p) => {
            lemma_arg_index_update(table, p, merge_arg(table[p].1, c), key, 0);
        },
        None => {
            let entry = (key, merge_arg(FullTypeView::new(TypeView::Base(BaseType::Any), false), c));
            lemma_arg_index_absent_push(table, entry, 0);
        },
    }
}

/// An entry appended under a key that the table lacks is found at the end.
pub proof fn lemma_arg_index_absent_push(
    table: ArgTable,
    entry: (ArgumentKeyView, FullTypeView),
    from: int,
)
    requires
        0 <= from <= table.len(),
        arg_index(table, entry.0, from) is None,
    ensures
        arg_index(table.push(entry), entry.0, from) == Some(table.len() as int),
    decreases table.len() - from,
{
    if from < table.len() {
        lemma_arg_index_absent_push(table, entry, from + 1);
    }
}

/// Whether no two entries of the table are for the same placeholder, so
/// that the table is a mapping.
pub open spec fn distinct_keys(table: ArgTable) -> bool {
    forall|i: int, j: int|
        #![trigger table[i], table[j]]
        0 <= i < j < table.len() ==> table[i].0 != table[j].0
}

/// In a table without repeated keys, an entry is what a lookup of its key
/// finds.
pub proof fn lemma_distinct_lookup(table: ArgTable, i: int)
    requires
        distinct_keys(table),
        0 <= i < table.len(),
    ensures
        arg_lookup(table, table[i].0) == Some(table[i].1),
{
    lemma_arg_index_found(table, table[i].0, 0);
    let found = arg_index(table, table[i].0, 0);
    assert(found is Some);
    if found.unwrap() != i {
        assert(table[found.unwrap()].0 != table[i].0);
    }
}

/// The table stays a mapping: evidence for a placeholder changes the one
/// entry that the placeholder has, or adds the first entry for it, so keys
/// that were distinct stay distinct.
pub proof fn lemma_constrain_keeps_distinct(table: ArgTable, c: Constraint)
    requires
        distinct_keys(table),
    ensures
        distinct_keys(constrain(table, c)),
{
    let key = ArgumentKeyView::Index(c.index);
    let after = constrain(table, c);
    lemma_arg_index_found(table, key, 0);
    match arg_index(table, key, 0) {
        Some(p) => {
            assert forall|i: int, j: int|
                #![trigger after[i], after[j]]
                0 <= i < j < after.len() implies after[i].0 != after[j].0 by {
                assert(after[i].0 == table[i].0);
                assert(after[j].0 == table[j].0);
            }
        },
        None => {
            assert forall|i: int, j: int|
                #![trigger after[i], after[j]]
                0 <= i < j < after.len() implies after[i].0 != after[j].0 by {
                assert(after[i].0 == table[i].0);
                if j < table.len() {
                    assert(after[j].0 == table[j].0);
                }
            }
        },
    }
}

/// [`lemma_constrain_keeps_distinct`] for any number of constraints.
pub proof fn lemma_constrain_all_keeps_distinct(table: ArgTable, cs: Seq<Constraint>, n: nat)
    requires
        distinct_keys(table),
    ensures
        distinct_keys(constrain_all(table, cs, n)),
    decreases n,
{
    if !(n == 0 || n > cs.len()) {
        lemma_constrain_all_keeps_distinct(table, cs, (n - 1) as nat);
        lemma_constrain_keeps_distinct(constrain_all(table, cs, (n - 1) as nat), cs[n - 1]);
    }
}

/// [`lemma_constrain_monotonic`] for any number of constraints.
pub proof fn lemma_constrain_all_monotonic(
    table: ArgTable,
    cs: Seq<Constraint>,
    n: nat,
    key: ArgumentKeyView,
)
    requires
        arg_lookup(table, key) is Some,
    ensures
        arg_lookup(constrain_all(table, cs, n), key) is Some,
        arg_lookup(table, key).unwrap().list_hack ==> arg_lookup(
            constrain_all(table, cs, n),
            key,
        ).unwrap().list_hack,
        arg_lookup(table, key).unwrap().base() != BaseType::Any ==> arg_lookup(
            constrain_all(table, cs, n),
            key,
        ).unwrap().base() == arg_lookup(table, key).unwrap().base(),
    decreases n,
{
    if !(n == 0 || n > cs.len()) {
        lemma_constrain_all_monotonic(table, cs, (n - 1) as nat, key);
        lemma_constrain_monotonic(constrain_all(table, cs, (n - 1) as nat), cs[n - 1], key);
    }
}

/// Appending an entry under another key moves no key.
pub proof fn lemma_arg_index_push_other(
    table: ArgTable,
    entry: (ArgumentKeyView, FullTypeView),
    key: ArgumentKeyView,
    from: int,
)
    requires
        0 <= from,
        entry.0 != key,
    ensures
        arg_index(table.push(entry), key, from) == arg_index(table, key, from),
    decreases table.len() + 1 - from,
{
    if from < table.len() {
        if table[from].0 != key {
            lemma_arg_index_push_other(table, entry, key, from + 1);
        }
    } else if from == table.len() {
        lemma_arg_index_push_other(table, entry, key, from + 1);
    }
}

/// Evidence for one placeholder changes nothing of what the table holds,
/// or does not hold, for another.
pub proof fn lemma_constrain_other(table: ArgTable, c: Constraint, key: ArgumentKeyView)
    requires
        key != ArgumentKeyView::Index(c.index),
    ensures
        arg_lookup(constrain(table, c), key) == arg_lookup(table, key),
{
    let ckey = ArgumentKeyView::Index(c.index);
    lemma_arg_index_found(table, key, 0);
    lemma_arg_index_found(table, ckey, 0);
    match arg_index(table, ckey, 0) {
        Some(p) => {
            lemma_arg_index_update(table, p, merge_arg(table[p].1, c), key, 0);
        },
        None => {
            let entry = (ckey, merge_arg(FullTypeView::new(TypeView::Base(BaseType::Any), false), c));
            lemma_arg_index_push_other(table, entry, key, 0);
        },
    }
}

/// Whether one of the first `n` of the constraints `cs` is for the
/// placeholder `key`.
pub open spec fn mentions(cs: Seq<Constraint>, n: nat, key: ArgumentKeyView) -> bool {
    exists|k: int| 0 <= k < n && ArgumentKeyView::Index((#[trigger] cs[k]).index) == key
}

/// What the table holds for `key` after the first `n` of the constraints
/// `cs`, which are all of the category `b`.
///
/// A category that was known of the placeholder is kept. Where only the
/// wildcard was known, or nothing, and one of the constraints is for the
/// placeholder, the placeholder has the category `b` afterwards. A
/// placeholder that none of the constraints is for is as it was, as far
/// as its category goes.
pub proof fn lemma_constrain_all_same_base(
    table: ArgTable,
    cs: Seq<Constraint>,
    n: nat,
    b: BaseType,
    key: ArgumentKeyView,
)
    requires
        n <= cs.len(),
        forall|k: int| 0 <= k < cs.len() ==> (#[trigger] cs[k]).t.base() == b,
    ensures
        ({
            let before = arg_lookup(table, key);
            let after = arg_lookup(constrain_all(table, cs, n), key);
            &&& before is Some && before.unwrap().base() != BaseType::Any ==> after is Some
                && after.unwrap().base() == before.unwrap().base()
            &&& before is Some && before.unwrap().base() == BaseType::Any ==> after is Some
                && (after.unwrap().base() == BaseType::Any || after.unwrap().base() == b)
            &&& before is None ==> after is None || after.unwrap().base() == b
            &&& mentions(cs, n, key) ==> after is Some && (before is None
                || before.unwrap().base() == BaseType::Any ==> after.unwrap().base() == b)
        }),
    decreases n,
{
    if n > 0 {
        let c = cs[n - 1];
        let prev = constrain_all(table, cs, (n - 1) as nat);
        lemma_constrain_all_same_base(table, cs, (n - 1) as nat, b, key);
        if ArgumentKeyView::Index(c.index) == key {
            lemma_constrain_records(prev, c);
        } else {
            lemma_constrain_other(prev, c, key);
            if mentions(cs, n, key) {
                let k = choose|k: int|
                    0 <= k < n && ArgumentKeyView::Index((#[trigger] cs[k]).index) == key;
                assert(0 <= k < n - 1 && ArgumentKeyView::Index(cs[k].index) == key);
            }
        }
    }
}

/// What a successful unification tells of a placeholder that one of the
/// two types carries: the table knows the placeholder afterwards. It has
/// the category that the two types have in common, unless another
/// category was known of it before, which it keeps: of conflicting uses
/// the first one counts.
pub proof fn lemma_unify_constrains(table: ArgTable, t1: TypeView, t2: TypeView, i: int)
    requires
        !(t1 is Invalid && t2 is Invalid),
        !(t1 is Null),
        !(t2 is Null),
        common_base(t1.base(), t2.base()) is Some,
        0 <= i < (t1.args() + t2.args()).len(),
    ensures
        ({
            let key = ArgumentKeyView::Index((t1.args() + t2.args())[i].index);
            let b = common_base(t1.base(), t2.base()).unwrap();
            let cs = unify_constraints(t1, t2);
            let before = arg_lookup(table, key);
            let after = arg_lookup(constrain_all(table, cs, cs.len()), key);
            &&& after is Some
            &&& before is Some && before.unwrap().base() != BaseType::Any ==> after.unwrap().base()
                == before.unwrap().base()
            &&& before is None || before.unwrap().base() == BaseType::Any ==> after.unwrap().base()
                == b
        }),
{
    let b = common_base(t1.base(), t2.base()).unwrap();
    let cs = unify_constraints(t1, t2);
    let key = ArgumentKeyView::Index((t1.args() + t2.args())[i].index);
    assert(ArgumentKeyView::Index(cs[i].index) == key);
    lemma_constrain_all_same_base(table, cs, cs.len(), b, key);
}

/// Typing never takes anything back. Whatever its effects are, the
/// diagnostics that were there stay where they are, in front of the new
/// ones; the catalog and the references in scope are the same afterwards;
/// a placeholder that was known stays known, keeps its list flag, and
/// keeps its category once that is not the wildcard; and a table of
/// placeholders that is a mapping stays one.
pub proof fn lemma_apply_frame(st: TyperView, e: Effects, key: ArgumentKeyView)
    ensures
        st.apply(e).issues.len() == st.issues.len() + e.issues.len(),
        st.apply(e).issues.take(st.issues.len() as int) == st.issues,
        st.apply(e).schemas == st.schemas,
        st.apply(e).reference_types == st.reference_types,
        st.apply(e).dialect == st.dialect,
        distinct_keys(st.arg_types) ==> distinct_keys(st.apply(e).arg_types),
        arg_lookup(st.arg_types, key) is Some ==> {
            &&& arg_lookup(st.apply(e).arg_types, key) is Some
            &&& arg_lookup(st.arg_types, key).unwrap().list_hack ==> arg_lookup(
                st.apply(e).arg_types,
                key,
            ).unwrap().list_hack
            &&& arg_lookup(st.arg_types, key).unwrap().base() != BaseType::Any ==> arg_lookup(
                st.apply(e).arg_types,
                key,
            ).unwrap().base() == arg_lookup(st.arg_types, key).unwrap().base()
        },
{
    assert(st.apply(e).issues.take(st.issues.len() as int) =~= st.issues);
    if distinct_keys(st.arg_types) {
        lemma_constrain_all_keeps_distinct(st.arg_types, e.constraints, e.constraints.len());
    }
    if arg_lookup(st.arg_types, key) is Some {
        lemma_constrain_all_monotonic(st.arg_types, e.constraints, e.constraints.len(), key);
    }
}

/// The typing context of one statement.
pub struct Typer<'a> {
    /// The diagnostics raised so far; typing only ever appends to them.
    pub issues: Vec<Issue>,
    pub schemas: &'a Schemas,
    /// The references whose columns are in scope, innermost last.
    pub reference_types: Vec<ReferenceType>,
    /// What is known of each placeholder.
    pub arg_types: Vec<(ArgumentKey, FullType)>,
    pub options: &'a TypeOptions,
}

impl<'a> View for Typer<'a> {
    type V = TyperView;

    open spec fn view(&self) -> TyperView {
        TyperView {
            issues: self.issues.deep_view(),
            schemas: self.schemas@,
            reference_types: self.reference_types.deep_view(),
            arg_types: self.arg_types.deep_view(),
            dialect: self.options.dialect,
        }
    }
}

impl<'a> Typer<'a> {
    /// A context without diagnostics, references in scope or placeholders.
    pub fn new(schemas: &'a Schemas, options: &'a TypeOptions) -> (r: Typer<'a>)
        ensures
            r@ == (TyperView {
                issues: Seq::empty(),
                schemas: schemas@,
                reference_types: Seq::empty(),
                arg_types: Seq::empty(),
                dialect: options.dialect,
            }),
    {
        let r = Typer {
            issues: Vec::new(),
            schemas,
            reference_types: Vec::new(),
            arg_types: Vec::new(),
            options,
        };
        assert(r.issues.deep_view() =~= Seq::empty());
        assert(r.reference_types.deep_view() =~= Seq::empty());
        assert(r.arg_types.deep_view() =~= Seq::empty());
        r
    }

    pub fn dialect(&self) -> (r: SqlDialect)
        ensures
            r == self@.dialect,
    {
        self.options.dialect
    }

    /// Appends a diagnostic.
    pub fn add_issue(&mut self, issue: Issue)
        ensures
            final(self)@ == old(self)@.apply(Effects::issue(issue@)),
    {
        broadcast use lemma_apply_issue;

        let ghost before = self.issues;
        self.issues.push(issue);
        proof {
            lemma_deep_view_push(before, self.issues, issue);
        }
    }

    /// Appends diagnostics, in order.
    pub fn add_issues(&mut self, issues: Vec<Issue>)
        ensures
            final(self)@ == old(self)@.apply(
                Effects { issues: issues.deep_view(), constraints: Seq::empty() },
            ),
    {
        let ghost before = self.issues;
        let mut issues = issues;
        let ghost added = issues;
        self.issues.append(&mut issues);
        proof {
            lemma_deep_view_append(before, added, self.issues);
        }
    }

    /// Takes the references in scope out of the context, which has none in
    /// scope afterwards.
    pub fn take_references(&mut self) -> (saved: Vec<ReferenceType>)
        ensures
            final(self)@ == old(self)@.with_references(Seq::empty()),
            saved.deep_view() == old(self)@.reference_types,
    {
        let mut saved: Vec<ReferenceType> = Vec::new();
        core::mem::swap(&mut saved, &mut self.reference_types);
        assert(self.reference_types.deep_view() =~= Seq::empty());
        saved
    }

    /// Puts references that were saved back in scope, in place of those
    /// that are.
    pub fn restore_references(&mut self, saved: Vec<ReferenceType>)
        ensures
            final(self)@ == old(self)@.with_references(saved.deep_view()),
    {
        self.reference_types = saved;
    }

    /// Index of the first entry of the table for the placeholder at `idx`.
    fn find_arg(&self, idx: usize) -> (r: Option<usize>)
        ensures
            match r {
                Some(p) => arg_index(self@.arg_types, ArgumentKeyView::Index(idx), 0) == Some(
                    p as int,
                ) && p < self.arg_types@.len(),
                None => arg_index(self@.arg_types, ArgumentKeyView::Index(idx), 0) is None,
            },
    {
        let ghost key = ArgumentKeyView::Index(idx);
        let mut i: usize = 0;
        while i < self.arg_types.len()
            invariant
                i <= self.arg_types@.len(),
                key == ArgumentKeyView::Index(idx),
                arg_index(self@.arg_types, key, 0) == arg_index(self@.arg_types, key, i as int),
            decreases self.arg_types@.len() - i,
        {
            let found = match &self.arg_types[i].0 {
                ArgumentKey::Index(j) => *j == idx,
                ArgumentKey::Identifier(_) => false,
            };
            if found {
                return Some(i);
            }
            i += 1;
        }
        None
    }

    /// Merges one piece of evidence for the type of the placeholder at `idx`.
    ///
    /// While only the wildcard is known of the placeholder, `t` is stored.
    /// Once a category is known of it, `t` is stored where it is of that
    /// category, and changes nothing where it is the wildcard or of another
    /// category: the first category that is seen of a placeholder is kept,
    /// and a conflicting use is not reported. The list flag is set for
    /// `ArgType::ListHack` and is never cleared.
    pub fn constrain_arg(&mut self, idx: usize, arg_type: ArgType, t: &FullType)
        ensures
            final(self)@ == old(self)@.apply(
                Effects::constraints(seq![Constraint { index: idx, arg_type, t: t@ }]),
            ),
    {
        let ghost c = Constraint { index: idx, arg_type, t: t@ };
        let ghost before = self.arg_types;
        let ghost before_view = self@;
        let wildcard = FullType::new(Type::Base(BaseType::Any), false);
        match self.find_arg(idx) {
            Some(p) => {
                let merged = merge(&self.arg_types[p].1, arg_type, t);
                let entry = (ArgumentKey::Index(idx), merged);
                self.arg_types[p] = entry;
                proof {
                    lemma_deep_view_update(before, self.arg_types, p as int, entry);
                }
            },
            None => {
                let entry = (ArgumentKey::Index(idx), merge(&wildcard, arg_type, t));
                self.arg_types.push(entry);
                proof {
                    lemma_deep_view_push(before, self.arg_types, entry);
                }
            },
        }
        proof {
            let cs = seq![c];
            assert(constrain_all(before_view.arg_types, cs, 0) == before_view.arg_types);
            assert(constrain_all(before_view.arg_types, cs, 1) == constrain(
                before_view.arg_types,
                c,
            ));
            assert(self@.issues =~= before_view.issues + Seq::<IssueView>::empty());
        }
    }

    /// Constrains the placeholders of the uses `args[from..]` to the type `t`.
    fn constrain_args(
        &mut self,
        args: &Vec<ArgRef>,
        t: &FullType,
        Ghost(done): Ghost<Seq<Constraint>>,
        Ghost(all): Ghost<Seq<Constraint>>,
        Ghost(start): Ghost<TyperView>,
    )
        requires
            old(self)@ == start.apply(Effects::constraints(done)),
            done.len() + args@.len() <= all.len(),
            done =~= all.take(done.len() as int),
            forall|i: int| 0 <= i < args@.len() ==> all[done.len() + i] == (Constraint {
                index: #[trigger] args@[i].index,
                arg_type: args@[i].arg_type,
                t: t@,
            }),
        ensures
            final(self)@ == start.apply(
                Effects::constraints(all.take((done.len() + args@.len()) as int)),
            ),
    {
        broadcast use group_effects;

        let mut i: usize = 0;
        assert(all.take(done.len() as int) =~= done);
        while i < args.len()
            invariant
                i <= args@.len(),
                done.len() + args@.len() <= all.len(),
                self@ == start.apply(Effects::constraints(all.take(done.len() + i))),
                forall|i: int| 0 <= i < args@.len() ==> all[done.len() + i] == (Constraint {
                    index: #[trigger] args@[i].index,
                    arg_type: args@[i].arg_type,
                    t: t@,
                }),
            decreases args@.len() - i,
        {
            let a = args[i];
            let ghost prev = self@;
            self.constrain_arg(a.index, a.arg_type, t);
            proof {
                let c = Constraint { index: a.index, arg_type: a.arg_type, t: t@ };
                let e1 = Effects::constraints(all.take(done.len() + i));
                let e2 = Effects::constraints(seq![c]);
                assert(c == all[done.len() + i]);
                assert(e1.chain(e2) == Effects::constraints(all.take(done.len() + i + 1))) by {
                    assert(all.take(done.len() + i) + seq![c] =~= all.take(done.len() + i + 1));
                    assert(Seq::<IssueView>::empty() + Seq::<IssueView>::empty()
                        =~= Seq::<IssueView>::empty());
                }
                assert(self@ == prev.apply(e2));
                lemma_apply_chain(start, e1, e2);
            }
            i += 1;
        }
    }

    /// Constrains every placeholder that `t` carries to the type `to`.
    pub fn constrain_type_args(&mut self, t: &Type, to: &FullType)
        ensures
            final(self)@ == old(self)@.apply(Effects::constraints(arg_constraints(t@.args(), to@))),
    {
        broadcast use group_effects;

        match t {
            Type::Args(_, args) => {
                let ghost all = arg_constraints(t@.args(), to@);
                assert(Effects::constraints(Seq::empty()) == Effects::none());
                self.constrain_args(args, to, Ghost(Seq::empty()), Ghost(all), Ghost(old(self)@));
                assert(all.take(args@.len() as int) =~= all);
            },
            _ => {
                assert(arg_constraints(t@.args(), to@) =~= Seq::empty());
                assert(Effects::constraints(Seq::empty()) == Effects::none());
            },
        }
    }

    /// Constrains every placeholder use of `t1` and of `t2` to the category `b`.
    fn constrain_both(&mut self, t1: &Type, t2: &Type, b: BaseType)
        ensures
            final(self)@ == old(self)@.apply(
                Effects::constraints(
                    Seq::new(
                        (t1@.args() + t2@.args()).len(),
                        |i: int| base_constraint((t1@.args() + t2@.args())[i], b),
                    ),
                ),
            ),
    {
        let ghost args = t1@.args() + t2@.args();
        let ghost all = Seq::new(args.len(), |i: int| base_constraint(args[i], b));
        let ghost n1 = t1@.args().len();
        let to = FullType::new(Type::Base(b), false);
        proof {
            lemma_apply_none(old(self)@);
            assert(Effects::constraints(Seq::empty()) == Effects::none());
            assert(all.take(0) =~= Seq::empty());
        }
        match t1 {
            Type::Args(_, a) => {
                self.constrain_args(a, &to, Ghost(Seq::empty()), Ghost(all), Ghost(old(self)@));
            },
            _ => {},
        }
        assert(self@ == old(self)@.apply(Effects::constraints(all.take(n1 as int))));
        match t2 {
            Type::Args(_, a) => {
                self.constrain_args(a, &to, Ghost(all.take(n1 as int)), Ghost(all), Ghost(old(self)@));
            },
            _ => {},
        }
        assert(all.take(all.len() as int) =~= all);
    }

    /// Unifies two types and records what that tells of placeholders.
    ///
    /// Returns the unified type, or `None` where the types are incompatible.
    pub fn matched_type(&mut self, t1: &Type, t2: &Type) -> (r: Option<Type>)
        ensures
            r.deep_view() == unify(t1@, t2@),
            final(self)@ == old(self)@.apply(Effects::constraints(unify_constraints(t1@, t2@))),
    {
        proof {
            lemma_apply_none(old(self)@);
            assert(Effects::constraints(Seq::empty()) == Effects::none());
        }
        if matches!(t1, Type::Invalid) && matches!(t2, Type::Invalid) {
            return Some(Type::Invalid);
        }
        if matches!(t1, Type::Null) {
            return Some(t2.ref_clone());
        }
        if matches!(t2, Type::Null) {
            return Some(t1.ref_clone());
        }
        let b1 = t1.base();
        let b2 = t2.base();
        let b = if b1 == BaseType::Any {
            b2
        } else if b2 == BaseType::Any || b1 == b2 {
            b1
        } else {
            return None;
        };
        self.constrain_both(t1, t2, b);
        if b == BaseType::Any {
            let args = concat_args(t1, t2);
            if args.len() > 0 {
                return Some(Type::Args(b, args));
            }
        }
        Some(Type::Base(b))
    }

    /// Unifies two types as [`Typer::matched_type`] does, and raises `issue`
    /// where they are incompatible.
    pub fn matched_or(&mut self, t1: &Type, t2: &Type, issue: Issue) -> (r: Option<Type>)
        ensures
            r.deep_view() == unify(t1@, t2@),
            final(self)@ == old(self)@.apply(unify_effects(t1@, t2@, issue@)),
    {
        let r = self.matched_type(t1, t2);
        let ghost mid = self@;
        if r.is_none() {
            self.add_issue(issue);
            proof {
                lemma_advance(
                    old(self)@,
                    Effects::constraints(unify_constraints(t1@, t2@)),
                    mid,
                    Effects::issue(issue@),
                );
            }
        }
        r
    }

    /// Checks that a value of type `given` fits where `expected` is wanted,
    /// and raises an error at `span` where it does not.
    pub fn ensure_type(&mut self, span: Span, given: &FullType, expected: &FullType)
        ensures
            final(self)@ == old(self)@.apply(ensure_type_effects(span, given@.t, expected@.t)),
    {
        let issue = Issue::err(
            Message::ExpectedType { expected: expected.t.ref_clone(), given: given.t.ref_clone() },
            span,
        );
        let _ = self.matched_or(&given.t, &expected.t, issue);
    }

    /// Checks that a value of type `given` fits where the category
    /// `expected` is wanted, and raises an error at `span` where it does not.
    pub fn ensure_base(&mut self, span: Span, given: &FullType, expected: BaseType)
        ensures
            final(self)@ == old(self)@.apply(ensure_base_effects(span, given@.t, expected)),
    {
        self.ensure_type(span, given, &FullType::new(Type::Base(expected), false));
    }
}

/// A copy of the columns of a reference.
pub fn clone_columns(columns: &Vec<(String, FullType)>) -> (r: Vec<(String, FullType)>)
    ensures
        r.deep_view() == columns.deep_view(),
{
    let mut r: Vec<(String, FullType)> = Vec::new();
    let mut i: usize = 0;
    assert(r.deep_view() =~= columns.deep_view().take(0));
    while i < columns.len()
        invariant
            i <= columns@.len(),
            r.deep_view() == columns.deep_view().take(i as int),
        decreases columns@.len() - i,
    {
        let ghost before = r;
        let entry = (columns[i].0.clone(), columns[i].1.ref_clone());
        r.push(entry);
        proof {
            lemma_deep_view_push(before, r, entry);
            assert(r.deep_view() =~= columns.deep_view().take(i + 1));
        }
        i += 1;
    }
    assert(columns.deep_view().take(columns@.len() as int) =~= columns.deep_view());
    r
}

/// A copy of a stack of references.
pub fn clone_references(references: &Vec<ReferenceType>) -> (r: Vec<ReferenceType>)
    ensures
        r.deep_view() == references.deep_view(),
{
    let mut r: Vec<ReferenceType> = Vec::new();
    let mut i: usize = 0;
    assert(r.deep_view() =~= references.deep_view().take(0));
    while i < references.len()
        invariant
            i <= references@.len(),
            r.deep_view() == references.deep_view().take(i as int),
        decreases references@.len() - i,
    {
        let ghost before = r;
        let name = match &references[i].name {
            Some(n) => Some(n.clone()),
            None => None,
        };
        let entry = ReferenceType {
            name,
            span: references[i].span,
            columns: clone_columns(&references[i].columns),
        };
        r.push(entry);
        proof {
            lemma_deep_view_push(before, r, entry);
            assert(r.deep_view() =~= references.deep_view().take(i + 1));
        }
        i += 1;
    }
    assert(references.deep_view().take(references@.len() as int) =~= references.deep_view());
    r
}

/// The placeholder uses of `t1` followed by those of `t2`.
fn concat_args(t1: &Type, t2: &Type) -> (r: Vec<ArgRef>)
    ensures
        r@ == t1@.args() + t2@.args(),
{
    let mut args: Vec<ArgRef> = match t1 {
        Type::Args(_, a) => clone_args(a),
        _ => Vec::new(),
    };
    match t2 {
        Type::Args(_, a) => {
            let mut i: usize = 0;
            while i < a.len()
                invariant
                    i <= a@.len(),
                    args@ == t1@.args() + a@.take(i as int),
                decreases a@.len() - i,
            {
                args.push(a[i]);
                assert(args@ =~= t1@.args() + a@.take(i + 1));
                i += 1;
            }
            assert(a@.take(a@.len() as int) =~= a@);
        },
        _ => {
            assert(args@ =~= t1@.args() + t2@.args());
        },
    }
    args
}

/// The entry of a placeholder after the evidence `t`, used as `arg_type`.
fn merge(cur: &FullType, arg_type: ArgType, t: &FullType) -> (r: FullType)
    ensures
        r@ == merge_arg(cur@, Constraint { index: 0, arg_type, t: t@ }),
{
    let cur_base = cur.base();
    let mut kept = if cur_base == BaseType::Any || t.base() == cur_base {
        t.ref_clone()
    } else {
        cur.ref_clone()
    };
    kept.list_hack = cur.list_hack || kept.list_hack || arg_type == ArgType::ListHack;
    kept
}

} // verus!
