//! Values that cross the boundary between scripts and the host: resume
//! arguments, results and error payloads.

use vstd::prelude::*;

verus! {

/// A dynamic script value in a form that can be handed between threads.
#[derive(Debug, PartialEq, Eq)]
pub enum Value {
    /// The absent value.
    Nil,
    Boolean(bool),
    /// A number, kept as the bits of its IEEE 754 double-precision form.
    Number(u64),
    /// A string of bytes, not necessarily text.
    Bytes(Vec<u8>),
    /// An ordered sequence.
    Sequence(Vec<Value>),
    /// A mapping, as its pairs of key and value; their order carries no meaning.
    Mapping(Vec<(Value, Value)>),
    /// A native resource, named by a number that only the host can resolve.
    Handle(u64),
}

} // verus!
