//! Runtime values: the tagged union the environment binds names to, and the
//! pointer representation used by the memory extension.
use vstd::prelude::*;

use crate::program::Type;
use crate::program::clone_type;

verus! {

/// A pointer value: the base address names one allocation, the offset
/// indexes within it, and the element type travels with the pointer so
/// accesses can be checked at execution time.
pub struct Pointer {
    /// Which allocation this pointer refers to
    pub base: usize,
    /// Index within the allocation; may move out of bounds through pointer
    /// arithmetic, and is checked on every access
    pub offset: i64,
    /// The type of each cell of the allocation
    pub elem: Type,
}

/// A runtime value: integer, boolean, or pointer. Values carry no mutability;
/// the environment binds names to values.
pub enum Value {
    /// 64-bit two's-complement integer
    Int(i64),
    /// Boolean
    Bool(bool),
    /// Pointer into the heap
    Ptr(Pointer),
}

impl Value {
    /// The runtime type of a value.
    pub open spec fn spec_type(&self) -> Type {
        match self {
            Value::Int(_) => Type::Int,
            Value::Bool(_) => Type::Bool,
            Value::Ptr(p) => Type::Pointer(Box::new(p.elem)),
        }
    }
}

/// The runtime type of a value, as a fresh `Type`.
pub fn runtime_type(v: &Value) -> (r: Type)
    ensures
        r == v.spec_type(),
{
    match v {
        Value::Int(_) => Type::Int,
        Value::Bool(_) => Type::Bool,
        Value::Ptr(p) => Type::Pointer(Box::new(clone_type(&p.elem))),
    }
}

/// An exact copy of a value, stated as such so contracts can rely on it.
pub fn clone_value(v: &Value) -> (r: Value)
    ensures
        r == *v,
{
    match v {
        Value::Int(i) => Value::Int(*i),
        Value::Bool(b) => Value::Bool(*b),
        Value::Ptr(p) => Value::Ptr(
            Pointer { base: p.base, offset: p.offset, elem: clone_type(&p.elem) },
        ),
    }
}

/// An exact copy of an optional value.
pub fn clone_opt_value(v: &Option<Value>) -> (r: Option<Value>)
    ensures
        r == *v,
{
    match v {
        None => None,
        Some(x) => Some(clone_value(x)),
    }
}

} // verus!
