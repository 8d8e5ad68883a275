//! Recoverable failures signalled by the runtime, captured as plain values
//! that no longer need the lock to inspect.
use crate::runtime::ObjKind;
use vstd::prelude::*;

verus! {

/// A failure of an operation on foreign objects.
#[derive(Debug)]
pub enum PyErr {
    /// An object was not of the native type that an operation expected.
    TypeMismatch { expected: ObjKind, found: ObjKind },
    /// Bytes were not well-formed UTF-8: `object` holds them, and
    /// `start..end` is the first ill-formed unit.
    UnicodeDecode { object: Vec<u8>, start: usize, end: usize },
    /// An encoding or an error policy that the runtime does not know.
    Lookup { name: String },
}

impl PyErr {
    /// The name of the runtime exception class that this error stands for.
    pub fn exception_name(&self) -> (r: &'static str)
        ensures
            self is TypeMismatch ==> r@ == "TypeError"@,
            self is UnicodeDecode ==> r@ == "UnicodeDecodeError"@,
            self is Lookup ==> r@ == "LookupError"@,
    {
        match self {
            PyErr::TypeMismatch { .. } => "TypeError",
            PyErr::UnicodeDecode { .. } => "UnicodeDecodeError",
            PyErr::Lookup { .. } => "LookupError",
        }
    }

    /// Whether this is a type mismatch.
    pub fn is_type_mismatch(&self) -> (r: bool)
        ensures
            r == self is TypeMismatch,
    {
        match self {
            PyErr::TypeMismatch { .. } => true,
            _ => false,
        }
    }

    /// For a decode error, the byte range of the first ill-formed unit.
    pub fn decode_range(&self) -> (r: Option<(usize, usize)>)
        ensures
            r is Some <==> self is UnicodeDecode,
            r matches Some(p) ==> p.0 == self->start && p.1 == self->end,
    {
        match self {
            PyErr::UnicodeDecode { start, end, .. } => Some((*start, *end)),
            _ => None,
        }
    }
}

} // verus!
