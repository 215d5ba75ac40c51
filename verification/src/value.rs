//! Values that kernels hand back, and how they read as conditions.

use vstd::prelude::*;

verus! {

/// A value from a kernel, as far as the engine reads it.
#[derive(Clone, Debug, PartialEq, Eq)]
pub enum Value {
    Null,
    Boolean(bool),
    Integer(i64),
    /// A number, by the bits of its double-precision form
    Number(u64),
    String(String),
    /// An array, by the number of its items
    Array(usize),
    /// An object, by the number of its entries
    Object(usize),
    /// A table of data, by the number of its rows
    Datatable(usize),
    /// Anything else: an image, a message, a node
    Other,
}

/// The bits of a double-precision number stand for zero: for one of the two
/// zeros, that is, which differ in their sign.
pub open spec fn number_is_zero(bits: u64) -> bool {
    bits == 0 || bits == 0x8000_0000_0000_0000
}

impl Value {
    /// The value as a condition. Nothing is false, a boolean is itself, a
    /// number is true unless it is zero, and a text, an array, an object or
    /// a table is true unless it is empty. Anything else is true.
    pub open spec fn spec_is_truthy(self) -> bool {
        match self {
            Value::Null => false,
            Value::Boolean(b) => b,
            Value::Integer(n) => n != 0,
            Value::Number(bits) => !number_is_zero(bits),
            Value::String(text) => text@.len() > 0,
            Value::Array(items) => items > 0,
            Value::Object(entries) => entries > 0,
            Value::Datatable(rows) => rows > 0,
            Value::Other => true,
        }
    }

    /// Whether the value, taken as a condition, holds.
    pub fn is_truthy(&self) -> (truthy: bool)
        ensures
            truthy == self.spec_is_truthy(),
    {
        match self {
            Value::Null => false,
            Value::Boolean(b) => *b,
            Value::Integer(n) => *n != 0,
            Value::Number(bits) => !(*bits == 0 || *bits == 0x8000_0000_0000_0000),
            Value::String(text) => !text.as_str().is_empty(),
            Value::Array(items) => *items > 0,
            Value::Object(entries) => *entries > 0,
            Value::Datatable(rows) => *rows > 0,
            Value::Other => true,
        }
    }
}

} // verus!
