//! Types of SQL values: coarse categories, concrete types, and types with
//! nullability.

use vstd::prelude::*;
use crate::span::Span;

verus! {

/// The coarse category of a type, which is what unification compares.
#[derive(Clone, Copy, Debug, PartialEq, Eq, Structural)]
pub enum BaseType {
    /// Wildcard: compatible with every category.
    Any,
    Bool,
    Bytes,
    Date,
    DateTime,
    Float,
    Integer,
    /// The category of the error marker; compatible with itself and with wildcards only.
    Invalid,
    Json,
    String,
    Time,
    TimeStamp,
}

/// How a placeholder is used at one place.
#[derive(Clone, Copy, Debug, PartialEq, Eq, Structural)]
pub enum ArgType {
    /// A single value.
    Normal,
    /// A list of values that is expanded when the statement is run.
    ListHack,
}

/// One use of a placeholder that a type's value flows into.
#[derive(Clone, Copy, Debug, PartialEq, Eq, Structural)]
pub struct ArgRef {
    /// Position of the placeholder in the statement.
    pub index: usize,
    pub arg_type: ArgType,
    pub span: Span,
}

/// The type of a value, without its nullability.
#[derive(Clone, Debug, PartialEq, Eq)]
pub enum Type {
    /// A type of the given category that placeholders flow into.
    Args(BaseType, Vec<ArgRef>),
    Base(BaseType),
    F32,
    F64,
    I8,
    I16,
    I32,
    I64,
    /// Marks the result of something that was already reported as an error.
    Invalid,
    JSON,
    /// The type of the `NULL` literal; it adopts the type it meets.
    Null,
    U8,
    U16,
    U32,
    U64,
}

/// Mathematical model of a [`Type`].
pub enum TypeView {
    Args(BaseType, Seq<ArgRef>),
    Base(BaseType),
    F32,
    F64,
    I8,
    I16,
    I32,
    I64,
    Invalid,
    JSON,
    Null,
    U8,
    U16,
    U32,
    U64,
}

impl TypeView {
    /// The coarse category of the type.
    pub open spec fn base(self) -> BaseType {
        match self {
            TypeView::Args(b, _) => b,
            TypeView::Base(b) => b,
            TypeView::F32 | TypeView::F64 => BaseType::Float,
            TypeView::I8 | TypeView::I16 | TypeView::I32 | TypeView::I64 => BaseType::Integer,
            TypeView::U8 | TypeView::U16 | TypeView::U32 | TypeView::U64 => BaseType::Integer,
            TypeView::Invalid => BaseType::Invalid,
            TypeView::JSON => BaseType::Json,
            TypeView::Null => BaseType::Any,
        }
    }

    /// The placeholder uses that the type carries.
    pub open spec fn args(self) -> Seq<ArgRef> {
        match self {
            TypeView::Args(_, a) => a,
            _ => Seq::empty(),
        }
    }
}

impl View for Type {
    type V = TypeView;

    open spec fn view(&self) -> TypeView {
        match *self {
            Type::Args(b, a) => TypeView::Args(b, a@),
            Type::Base(b) => TypeView::Base(b),
            Type::F32 => TypeView::F32,
            Type::F64 => TypeView::F64,
            Type::I8 => TypeView::I8,
            Type::I16 => TypeView::I16,
            Type::I32 => TypeView::I32,
            Type::I64 => TypeView::I64,
            Type::Invalid => TypeView::Invalid,
            Type::JSON => TypeView::JSON,
            Type::Null => TypeView::Null,
            Type::U8 => TypeView::U8,
            Type::U16 => TypeView::U16,
            Type::U32 => TypeView::U32,
            Type::U64 => TypeView::U64,
        }
    }
}

impl DeepView for Type {
    type V = TypeView;

    open spec fn deep_view(&self) -> TypeView {
        self@
    }
}

/// A copy of a list of placeholder uses.
pub fn clone_args(a: &Vec<ArgRef>) -> (r: Vec<ArgRef>)
    ensures
        r@ == a@,
{
    let mut r: Vec<ArgRef> = Vec::new();
    let mut i: usize = 0;
    while i < a.len()
        invariant
            i <= a@.len(),
            r@ == a@.take(i as int),
        decreases a@.len() - i,
    {
        r.push(a[i]);
        assert(r@ =~= a@.take(i + 1));
        i += 1;
    }
    assert(a@.take(a@.len() as int) =~= a@);
    r
}

/// Whether two lists of placeholder uses are equal.
pub fn same_args(a: &Vec<ArgRef>, b: &Vec<ArgRef>) -> (r: bool)
    ensures
        r == (a@ == b@),
{
    if a.len() != b.len() {
        return false;
    }
    let mut i: usize = 0;
    while i < a.len()
        invariant
            i <= a@.len(),
            a@.len() == b@.len(),
            a@.take(i as int) == b@.take(i as int),
        decreases a@.len() - i,
    {
        if a[i] != b[i] {
            assert(a@[i as int] != b@[i as int]);
            return false;
        }
        assert(a@.take(i + 1) =~= a@.take(i as int).push(a@[i as int]));
        assert(b@.take(i + 1) =~= b@.take(i as int).push(b@[i as int]));
        i += 1;
    }
    assert(a@.take(a@.len() as int) =~= a@);
    assert(b@.take(b@.len() as int) =~= b@);
    true
}

impl Type {
    /// The coarse category of the type.
    pub fn base(&self) -> (b: BaseType)
        ensures
            b == self@.base(),
    {
        match self {
            Type::Args(b, _) => *b,
            Type::Base(b) => *b,
            Type::F32 | Type::F64 => BaseType::Float,
            Type::I8 | Type::I16 | Type::I32 | Type::I64 => BaseType::Integer,
            Type::U8 | Type::U16 | Type::U32 | Type::U64 => BaseType::Integer,
            Type::Invalid => BaseType::Invalid,
            Type::JSON => BaseType::Json,
            Type::Null => BaseType::Any,
        }
    }

    /// A copy of the type.
    pub fn ref_clone(&self) -> (r: Type)
        ensures
            r@ == self@,
    {
        match self {
            Type::Args(b, a) => Type::Args(*b, clone_args(a)),
            Type::Base(b) => Type::Base(*b),
            Type::F32 => Type::F32,
            Type::F64 => Type::F64,
            Type::I8 => Type::I8,
            Type::I16 => Type::I16,
            Type::I32 => Type::I32,
            Type::I64 => Type::I64,
            Type::Invalid => Type::Invalid,
            Type::JSON => Type::JSON,
            Type::Null => Type::Null,
            Type::U8 => Type::U8,
            Type::U16 => Type::U16,
            Type::U32 => Type::U32,
            Type::U64 => Type::U64,
        }
    }

    /// Whether two types are the same, placeholder uses included.
    pub fn same(&self, other: &Type) -> (r: bool)
        ensures
            r == (self@ == other@),
    {
        match (self, other) {
            (Type::Args(b1, a1), Type::Args(b2, a2)) => *b1 == *b2 && same_args(a1, a2),
            (Type::Base(b1), Type::Base(b2)) => *b1 == *b2,
            (Type::F32, Type::F32) => true,
            (Type::F64, Type::F64) => true,
            (Type::I8, Type::I8) => true,
            (Type::I16, Type::I16) => true,
            (Type::I32, Type::I32) => true,
            (Type::I64, Type::I64) => true,
            (Type::Invalid, Type::Invalid) => true,
            (Type::JSON, Type::JSON) => true,
            (Type::Null, Type::Null) => true,
            (Type::U8, Type::U8) => true,
            (Type::U16, Type::U16) => true,
            (Type::U32, Type::U32) => true,
            (Type::U64, Type::U64) => true,
            _ => false,
        }
    }
}

/// A type together with its nullability.
#[derive(Clone, Debug, PartialEq, Eq)]
pub struct FullType {
    pub t: Type,
    /// Whether a value of this type is known not to be `NULL`.
    pub not_null: bool,
    /// Whether a placeholder of this type stands for a list of values.
    pub list_hack: bool,
}

/// Mathematical model of a [`FullType`].
pub struct FullTypeView {
    pub t: TypeView,
    pub not_null: bool,
    pub list_hack: bool,
}

impl FullTypeView {
    pub open spec fn new(t: TypeView, not_null: bool) -> FullTypeView {
        FullTypeView { t, not_null, list_hack: false }
    }

    pub open spec fn invalid() -> FullTypeView {
        FullTypeView::new(TypeView::Invalid, false)
    }

    pub open spec fn base(self) -> BaseType {
        self.t.base()
    }
}

impl View for FullType {
    type V = FullTypeView;

    open spec fn view(&self) -> FullTypeView {
        FullTypeView { t: self.t@, not_null: self.not_null, list_hack: self.list_hack }
    }
}

impl DeepView for FullType {
    type V = FullTypeView;

    open spec fn deep_view(&self) -> FullTypeView {
        self@
    }
}

impl FullType {
    pub fn new(t: Type, not_null: bool) -> (r: FullType)
        ensures
            r@ == FullTypeView::new(t@, not_null),
    {
        FullType { t, not_null, list_hack: false }
    }

    /// The nullable error marker.
    pub fn invalid() -> (r: FullType)
        ensures
            r@ == FullTypeView::invalid(),
    {
        FullType { t: Type::Invalid, not_null: false, list_hack: false }
    }

    /// The coarse category of the type.
    pub fn base(&self) -> (b: BaseType)
        ensures
            b == self@.base(),
    {
        self.t.base()
    }

    /// A copy of the type.
    pub fn ref_clone(&self) -> (r: FullType)
        ensures
            r@ == self@,
    {
        FullType { t: self.t.ref_clone(), not_null: self.not_null, list_hack: self.list_hack }
    }
}

} // verus!
