//! Conversions between host values and foreign objects.
use crate::err::PyErr;
use crate::object::{PyObject, PyObjectRef};
use crate::runtime::{ObjKind, Python, RefOp, Runtime};
use crate::strings::PyString;
use crate::utf8::{invalid_unit_len, tail, valid_prefix_len};
use vstd::prelude::*;
use vstd::string::*;
use vstd::utf8::*;

verus! {

/// Converts text into a new text object, owned by the result.
pub fn to_object(rt: &mut Runtime, py: &Python, s: &str) -> (r: PyObject)
    requires
        old(rt).wf(),
        old(rt).holds(py),
        old(rt)@.objects.len() < usize::MAX,
    ensures
        final(rt).wf(),
        final(rt)@ == old(rt)@.apply(RefOp::New { kind: ObjKind::Str, data: s.spec_bytes() }),
        r.ptr() == old(rt)@.objects.len(),
{
    PyString::new(rt, py, s)
}

/// Reads a text object as a string borrowed from the runtime. Fails with a
/// type mismatch on an object of another type, and with a decode error on
/// text that is not well-formed.
pub fn extract_str<'a>(rt: &'a Runtime, py: &Python, obj: PyObjectRef) -> (r: Result<&'a str, PyErr>)
    requires
        rt.wf(),
        rt.holds(py),
        rt@.live(obj.ptr()),
    ensures
        ({
            let o = rt@.objects[obj.ptr() as int];
            let k = valid_prefix_len(o.data);
            if o.kind != ObjKind::Str {
                r matches Err(e) && e == (PyErr::TypeMismatch { expected: ObjKind::Str, found: o.kind })
            } else if valid_utf8(o.data) {
                r matches Ok(s) && s@ == decode_utf8(o.data)
            } else {
                &&& r matches Err(PyErr::UnicodeDecode { object, start, end })
                &&& object@ == o.data
                &&& start == k
                &&& end == k + invalid_unit_len(tail(o.data, k))
            }
        }),
{
    match PyString::try_from(rt, py, obj) {
        Ok(s) => s.to_string(rt, py),
        Err(e) => Err(e),
    }
}

/// Reads a text object into an owned string; fails as `extract_str` does.
pub fn extract_string(rt: &Runtime, py: &Python, obj: PyObjectRef) -> (r: Result<String, PyErr>)
    requires
        rt.wf(),
        rt.holds(py),
        rt@.live(obj.ptr()),
    ensures
        ({
            let o = rt@.objects[obj.ptr() as int];
            let k = valid_prefix_len(o.data);
            if o.kind != ObjKind::Str {
                r matches Err(e) && e == (PyErr::TypeMismatch { expected: ObjKind::Str, found: o.kind })
            } else if valid_utf8(o.data) {
                r matches Ok(s) && s@ == decode_utf8(o.data)
            } else {
                &&& r matches Err(PyErr::UnicodeDecode { object, start, end })
                &&& object@ == o.data
                &&& start == k
                &&& end == k + invalid_unit_len(tail(o.data, k))
            }
        }),
{
    match extract_str(rt, py, obj) {
        Ok(s) => Ok(s.to_owned()),
        Err(e) => Err(e),
    }
}

} // verus!
