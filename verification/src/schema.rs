//! The schema catalog that statements are typed against.

use vstd::prelude::*;
use crate::types::{FullType, FullTypeView};

verus! {

/// A column of a table or view.
#[derive(Clone, Debug, PartialEq, Eq)]
pub struct Column {
    pub identifier: String,
    pub type_: FullType,
    pub auto_increment: bool,
}

/// Mathematical model of a [`Column`].
pub struct ColumnView {
    pub identifier: Seq<char>,
    pub type_: FullTypeView,
    pub auto_increment: bool,
}

impl View for Column {
    type V = ColumnView;

    open spec fn view(&self) -> ColumnView {
        ColumnView {
            identifier: self.identifier@,
            type_: self.type_@,
            auto_increment: self.auto_increment,
        }
    }
}

impl DeepView for Column {
    type V = ColumnView;

    open spec fn deep_view(&self) -> ColumnView {
        self@
    }
}

/// A table or view, with its columns in the order of their declaration.
#[derive(Clone, Debug, PartialEq, Eq)]
pub struct Schema {
    pub name: String,
    /// Whether this is a view rather than a table.
    pub view: bool,
    pub columns: Vec<Column>,
}

/// Mathematical model of a [`Schema`].
pub struct SchemaView {
    pub name: Seq<char>,
    pub view: bool,
    pub columns: Seq<ColumnView>,
}

impl View for Schema {
    type V = SchemaView;

    open spec fn view(&self) -> SchemaView {
        SchemaView { name: self.name@, view: self.view, columns: self.columns.deep_view() }
    }
}

impl DeepView for Schema {
    type V = SchemaView;

    open spec fn deep_view(&self) -> SchemaView {
        self@
    }
}

/// Index of the first column named `name` at or after position `from`.
pub open spec fn column_index(columns: Seq<ColumnView>, name: Seq<char>, from: int) -> Option<int>
    decreases columns.len() - from,
{
    if from < 0 || from >= columns.len() {
        None
    } else if columns[from].identifier == name {
        Some(from)
    } else {
        column_index(columns, name, from + 1)
    }
}

/// What [`column_index`] finds is the first column of the name: no column
/// between `from` and it has the name, and where it finds nothing, no
/// column from `from` on has.
pub proof fn lemma_column_index_first(columns: Seq<ColumnView>, name: Seq<char>, from: int)
    requires
        0 <= from,
    ensures
        match column_index(columns, name, from) {
            Some(i) => from <= i < columns.len() && columns[i].identifier == name && forall|j: int|
                from <= j < i ==> (#[trigger] columns[j]).identifier != name,
            None => forall|j: int|
                from <= j < columns.len() ==> (#[trigger] columns[j]).identifier != name,
        },
    decreases columns.len() - from,
{
    if from < columns.len() && columns[from].identifier != name {
        lemma_column_index_first(columns, name, from + 1);
    }
}

impl SchemaView {
    /// The first column named `name`.
    pub open spec fn get_column(self, name: Seq<char>) -> Option<ColumnView> {
        match column_index(self.columns, name, 0) {
            Some(i) => Some(self.columns[i]),
            None => None,
        }
    }

    /// Whether the table has an auto-increment column.
    pub open spec fn has_auto_increment(self) -> bool {
        exists|i: int| 0 <= i < self.columns.len() && (#[trigger] self.columns[i]).auto_increment
    }
}

impl Schema {
    /// The column that `name` stands for. Where several columns have the
    /// name, that is the first of them, on purpose.
    pub fn get_column(&self, name: &String) -> (r: Option<&Column>)
        ensures
            r.deep_view() == self@.get_column(name@),
    {
        let mut i: usize = 0;
        while i < self.columns.len()
            invariant
                i <= self.columns@.len(),
                column_index(self@.columns, name@, 0) == column_index(self@.columns, name@, i as int),
            decreases self.columns@.len() - i,
        {
            if self.columns[i].identifier == *name {
                return Some(&self.columns[i]);
            }
            i += 1;
        }
        None
    }

    /// Whether the table has an auto-increment column.
    pub fn has_auto_increment(&self) -> (r: bool)
        ensures
            r == self@.has_auto_increment(),
    {
        let mut i: usize = 0;
        while i < self.columns.len()
            invariant
                i <= self.columns@.len(),
                forall|j: int| 0 <= j < i ==> !(#[trigger] self@.columns[j]).auto_increment,
            decreases self.columns@.len() - i,
        {
            assert(self@.columns[i as int] == self.columns@[i as int]@);
            if self.columns[i].auto_increment {
                return true;
            }
            i += 1;
        }
        false
    }
}

/// The catalog: every table and view that a statement may name.
///
/// A name stands for the first schema of that name. A catalog is well
/// formed where its names are distinct, so that each schema is the one
/// that its name stands for; typing does not ask for that, and goes by the
/// first match where it does not hold.
#[derive(Clone, Debug, PartialEq, Eq)]
pub struct Schemas {
    pub schemas: Vec<Schema>,
}

/// Index of the first schema named `name` at or after position `from`.
pub open spec fn schema_index(schemas: Seq<SchemaView>, name: Seq<char>, from: int) -> Option<int>
    decreases schemas.len() - from,
{
    if from < 0 || from >= schemas.len() {
        None
    } else if schemas[from].name == name {
        Some(from)
    } else {
        schema_index(schemas, name, from + 1)
    }
}

/// What [`schema_index`] finds is the first schema of the name: no schema
/// between `from` and it has the name, and where it finds nothing, no
/// schema from `from` on has.
pub proof fn lemma_schema_index_first(schemas: Seq<SchemaView>, name: Seq<char>, from: int)
    requires
        0 <= from,
    ensures
        match schema_index(schemas, name, from) {
            Some(i) => from <= i < schemas.len() && schemas[i].name == name && forall|j: int|
                from <= j < i ==> (#[trigger] schemas[j]).name != name,
            None => forall|j: int| from <= j < schemas.len() ==> (#[trigger] schemas[j]).name != name,
        },
    decreases schemas.len() - from,
{
    if from < schemas.len() && schemas[from].name != name {
        lemma_schema_index_first(schemas, name, from + 1);
    }
}

/// Whether no two schemas have the same name.
pub open spec fn distinct_names(schemas: Seq<SchemaView>) -> bool {
    forall|i: int, j: int|
        #![trigger schemas[i], schemas[j]]
        0 <= i < j < schemas.len() ==> schemas[i].name != schemas[j].name
}

/// In a catalog of distinct names, every schema is what its name stands for.
pub proof fn lemma_find_schema_unique(schemas: Seq<SchemaView>, i: int)
    requires
        distinct_names(schemas),
        0 <= i < schemas.len(),
    ensures
        find_schema(schemas, schemas[i].name) == Some(schemas[i]),
{
    lemma_schema_index_first(schemas, schemas[i].name, 0);
    let found = schema_index(schemas, schemas[i].name, 0);
    assert(found is Some);
    if found.unwrap() != i {
        assert(schemas[found.unwrap()].name != schemas[i].name);
    }
}

/// The schema that `name` stands for: the first one of that name.
pub open spec fn find_schema(schemas: Seq<SchemaView>, name: Seq<char>) -> Option<SchemaView> {
    match schema_index(schemas, name, 0) {
        Some(i) => Some(schemas[i]),
        None => None,
    }
}

impl View for Schemas {
    type V = Seq<SchemaView>;

    open spec fn view(&self) -> Seq<SchemaView> {
        self.schemas.deep_view()
    }
}

impl Schemas {
    /// Whether the catalog is well formed: its names are distinct.
    pub open spec fn wf(&self) -> bool {
        distinct_names(self@)
    }

    /// Whether the names of the catalog are distinct.
    pub fn has_distinct_names(&self) -> (r: bool)
        ensures
            r == self.wf(),
    {
        let ghost sv = self@;
        let mut j: usize = 0;
        while j < self.schemas.len()
            invariant
                j <= self.schemas@.len(),
                sv == self@,
                forall|a: int, b: int|
                    #![trigger sv[a], sv[b]]
                    0 <= a < b < j ==> sv[a].name != sv[b].name,
            decreases self.schemas@.len() - j,
        {
            let mut i: usize = 0;
            while i < j
                invariant
                    i <= j < self.schemas@.len(),
                    sv == self@,
                    forall|a: int| 0 <= a < i ==> (#[trigger] sv[a]).name != sv[j as int].name,
                decreases j - i,
            {
                assert(sv[i as int] == self.schemas@[i as int]@);
                assert(sv[j as int] == self.schemas@[j as int]@);
                if self.schemas[i].name == self.schemas[j].name {
                    return false;
                }
                i += 1;
            }
            j += 1;
        }
        true
    }

    /// The table or view that `name` stands for. Where several schemas
    /// have the name, that is the first of them, on purpose: a catalog
    /// need not be well formed to be typed against.
    pub fn get(&self, name: &String) -> (r: Option<&Schema>)
        ensures
            r.deep_view() == find_schema(self@, name@),
    {
        let mut i: usize = 0;
        while i < self.schemas.len()
            invariant
                i <= self.schemas@.len(),
                schema_index(self@, name@, 0) == schema_index(self@, name@, i as int),
            decreases self.schemas@.len() - i,
        {
            if self.schemas[i].name == *name {
                return Some(&self.schemas[i]);
            }
            i += 1;
        }
        None
    }
}

} // verus!
