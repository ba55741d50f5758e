//! The types that script values can have.

use vstd::prelude::*;
use crate::text::{join, joined, strings_view};

verus! {

/// The type of a script value.
#[derive(Debug, PartialEq, Eq)]
pub enum DataType {
    /// Not yet inferred.
    Any,
    Int,
    Float,
    Bool,
    Arr(Box<DataType>),
    Fun(Vec<DataType>),
    Asm(Vec<DataType>),
}

/// A `DataType` as a mathematical value.
pub enum TypeModel {
    Any,
    Int,
    Float,
    Bool,
    Arr(Box<TypeModel>),
    Fun(Seq<TypeModel>),
    Asm(Seq<TypeModel>),
}

/// The model of each type in a list, in order.
pub open spec fn types_view(types: Seq<DataType>) -> Seq<TypeModel>
    decreases types, 0nat,
{
    Seq::new(
        types.len(),
        |i: int|
            if 0 <= i < types.len() {
                type_view(types[i])
            } else {
                TypeModel::Any
            },
    )
}

/// The model of one type.
pub open spec fn type_view(t: DataType) -> TypeModel
    decreases t, 1nat,
{
    match t {
        DataType::Any => TypeModel::Any,
        DataType::Int => TypeModel::Int,
        DataType::Float => TypeModel::Float,
        DataType::Bool => TypeModel::Bool,
        DataType::Arr(item) => TypeModel::Arr(Box::new(type_view(*item))),
        DataType::Fun(args) => TypeModel::Fun(types_view(args@)),
        DataType::Asm(args) => TypeModel::Asm(types_view(args@)),
    }
}

impl View for DataType {
    type V = TypeModel;

    open spec fn view(&self) -> TypeModel {
        type_view(*self)
    }
}

impl Clone for DataType {
    fn clone(&self) -> (r: DataType)
        ensures
            r@ == self@,
        decreases *self,
    {
        match self {
            DataType::Any => DataType::Any,
            DataType::Int => DataType::Int,
            DataType::Float => DataType::Float,
            DataType::Bool => DataType::Bool,
            DataType::Arr(item) => DataType::Arr(Box::new((**item).clone())),
            DataType::Fun(args) => DataType::Fun(clone_types(args)),
            DataType::Asm(args) => DataType::Asm(clone_types(args)),
        }
    }
}

/// A copy of a list of types.
pub fn clone_types(types: &Vec<DataType>) -> (r: Vec<DataType>)
    ensures
        types_view(r@) == types_view(types@),
    decreases *types,
{
    let mut r: Vec<DataType> = Vec::new();
    let mut i: usize = 0;
    while i < types.len()
        invariant
            i <= types.len(),
            r@.len() == i,
            forall|j: int| 0 <= j < i ==> r@[j]@ == types@[j]@,
        decreases types.len() - i,
    {
        r.push(types[i].clone());
        i += 1;
    }
    assert(types_view(r@) =~= types_view(types@));
    r
}

/// The written form of each type in a list, in order.
pub open spec fn types_text(types: Seq<TypeModel>) -> Seq<Seq<char>>
    decreases types, 0nat,
{
    Seq::new(
        types.len(),
        |i: int|
            if 0 <= i < types.len() {
                type_text(types[i])
            } else {
                Seq::empty()
            },
    )
}

/// The written form of a type: `any`, `int`, `float`, `bool`, an item type
/// in square brackets, or `fun` or `asm` with the argument types in round
/// brackets, separated by a comma and a space.
pub open spec fn type_text(t: TypeModel) -> Seq<char>
    decreases t, 1nat,
{
    match t {
        TypeModel::Any => "any"@,
        TypeModel::Int => "int"@,
        TypeModel::Float => "float"@,
        TypeModel::Bool => "bool"@,
        TypeModel::Arr(item) => "["@ + type_text(*item) + "]"@,
        TypeModel::Fun(args) => "fun("@ + joined(types_text(args), ", "@) + ")"@,
        TypeModel::Asm(args) => "asm("@ + joined(types_text(args), ", "@) + ")"@,
    }
}

impl DataType {
    /// The type as script source text.
    pub fn to_text(&self) -> (out: String)
        ensures
            out@ == type_text(self@),
        decreases *self,
    {
        match self {
            DataType::Any => String::from_str("any"),
            DataType::Int => String::from_str("int"),
            DataType::Float => String::from_str("float"),
            DataType::Bool => String::from_str("bool"),
            DataType::Arr(item) => {
                let mut out = String::from_str("[");
                let inner = item.to_text();
                out.append(inner.as_str());
                out.append("]");
                out
            },
            DataType::Fun(args) => {
                let mut out = String::from_str("fun(");
                let inner = list_text(args);
                out.append(inner.as_str());
                out.append(")");
                out
            },
            DataType::Asm(args) => {
                let mut out = String::from_str("asm(");
                let inner = list_text(args);
                out.append(inner.as_str());
                out.append(")");
                out
            },
        }
    }

    /// Whether two types are the same type.
    pub fn same(&self, other: &DataType) -> (b: bool)
        ensures
            b == (self@ == other@),
        decreases *self,
    {
        match (self, other) {
            (DataType::Any, DataType::Any) => true,
            (DataType::Int, DataType::Int) => true,
            (DataType::Float, DataType::Float) => true,
            (DataType::Bool, DataType::Bool) => true,
            (DataType::Arr(a), DataType::Arr(b)) => a.same(b),
            (DataType::Fun(a), DataType::Fun(b)) => same_types(a, b),
            (DataType::Asm(a), DataType::Asm(b)) => same_types(a, b),
            _ => false,
        }
    }

    /// Whether the type is still to be inferred.
    pub fn is_any(&self) -> (b: bool)
        ensures
            b == (self@ == TypeModel::Any),
    {
        match self {
            DataType::Any => true,
            _ => false,
        }
    }
}

/// The written forms of the types, separated by a comma and a space.
pub fn list_text(types: &Vec<DataType>) -> (out: String)
    ensures
        out@ == joined(types_text(types_view(types@)), ", "@),
    decreases *types,
{
    let mut parts: Vec<String> = Vec::new();
    let mut i: usize = 0;
    while i < types.len()
        invariant
            i <= types.len(),
            parts@.len() == i,
            forall|j: int| 0 <= j < i ==> parts@[j]@ == type_text(types@[j]@),
        decreases types.len() - i,
    {
        parts.push(types[i].to_text());
        i += 1;
    }
    assert(strings_view(parts@) =~= types_text(types_view(types@)));
    join(&parts, ", ")
}

/// Whether two lists hold the same types in the same order.
pub fn same_types(a: &Vec<DataType>, b: &Vec<DataType>) -> (r: bool)
    ensures
        r == (types_view(a@) == types_view(b@)),
    decreases *a,
{
    if a.len() != b.len() {
        assert(types_view(a@).len() != types_view(b@).len());
        return false;
    }
    let mut i: usize = 0;
    while i < a.len()
        invariant
            i <= a.len(),
            a.len() == b.len(),
            forall|j: int| 0 <= j < i ==> a@[j]@ == b@[j]@,
        decreases a.len() - i,
    {
        if !a[i].same(&b[i]) {
            assert(types_view(a@)[i as int] != types_view(b@)[i as int]);
            return false;
        }
        i += 1;
    }
    assert(types_view(a@) =~= types_view(b@));
    true
}

} // verus!
