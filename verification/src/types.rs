//! Types and call signatures as the flat listing of a script uses them.

use vstd::prelude::*;
use vstd::string::StringExecFns;

verus! {

/// A variable type.
#[derive(Debug, PartialEq, Eq)]
pub enum Type {
    Undefined,
    Int,
    Float,
    Bool,
    Thread,
    Array(Box<Type>),
    Model,
    Collider,
    Function,
    Asm,
}

/// The written form of a type: its name in lower case, and the item type
/// in square brackets for an array.
pub open spec fn written_type(t: Type) -> Seq<char>
    decreases t,
{
    match t {
        Type::Undefined => "undefined"@,
        Type::Int => "int"@,
        Type::Float => "float"@,
        Type::Bool => "bool"@,
        Type::Array(item) => "["@ + written_type(*item) + "]"@,
        Type::Thread => "thread"@,
        Type::Model => "model"@,
        Type::Collider => "collider"@,
        Type::Function => "fun"@,
        Type::Asm => "asm"@,
    }
}

impl Type {
    /// The type as it is written.
    pub fn to_text(&self) -> (out: String)
        ensures
            out@ == written_type(*self),
        decreases *self,
    {
        match self {
            Type::Undefined => String::from_str("undefined"),
            Type::Int => String::from_str("int"),
            Type::Float => String::from_str("float"),
            Type::Bool => String::from_str("bool"),
            Type::Array(item) => {
                let mut out = String::from_str("[");
                let inner = item.to_text();
                out.append(inner.as_str());
                out.append("]");
                out
            },
            Type::Thread => String::from_str("thread"),
            Type::Model => String::from_str("model"),
            Type::Collider => String::from_str("collider"),
            Type::Function => String::from_str("fun"),
            Type::Asm => String::from_str("asm"),
        }
    }
}

impl Clone for Type {
    fn clone(&self) -> (r: Type)
        ensures
            r == *self,
        decreases *self,
    {
        match self {
            Type::Undefined => Type::Undefined,
            Type::Int => Type::Int,
            Type::Float => Type::Float,
            Type::Bool => Type::Bool,
            Type::Array(item) => Type::Array(Box::new((**item).clone())),
            Type::Thread => Type::Thread,
            Type::Model => Type::Model,
            Type::Collider => Type::Collider,
            Type::Function => Type::Function,
            Type::Asm => Type::Asm,
        }
    }
}

/// The types that a method takes and the type that it gives back.
#[derive(Debug, PartialEq, Eq)]
pub struct Signature {
    pub args: Vec<Type>,
    pub ret: Option<Type>,
}

impl Signature {
    pub fn new(args: Vec<Type>, ret: Option<Type>) -> (sig: Signature)
        ensures
            sig.args == args,
            sig.ret == ret,
    {
        Signature { args, ret }
    }
}

/// A compile-time type hint for a method.
#[derive(Debug, PartialEq, Eq)]
pub enum Hint {
    Asm(Signature),
    Function(Signature),
}

impl Hint {
    /// The signature that the hint carries.
    pub open spec fn sig(self) -> Signature {
        match self {
            Hint::Asm(sig) => sig,
            Hint::Function(sig) => sig,
        }
    }

    /// The signature, whichever kind of method the hint is for.
    pub fn unwrap_sig(self) -> (sig: Signature)
        ensures
            sig == self.sig(),
    {
        match self {
            Hint::Asm(sig) => sig,
            Hint::Function(sig) => sig,
        }
    }
}

} // verus!
