//! A model of a reference-counted foreign object runtime guarded by a global
//! interpreter lock, with typed text and byte-string wrappers whose accessors
//! are proved free of panics and faithful to the bytes they wrap.
pub mod conversion;
pub mod err;
pub mod object;
pub mod runtime;
pub mod strings;
pub mod utf8;
