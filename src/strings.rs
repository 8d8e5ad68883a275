//! Typed wrappers over text and byte-string objects: constructors, checked
//! downcasts, and accessors that read the payload under the lock.
use crate::err::PyErr;
use crate::object::{PyObject, PyObjectRef};
use crate::runtime::{ObjKind, Python, RefOp, Runtime, RuntimeModel};
use crate::utf8::{
    check_utf8, check_utf8_with_surrogates, decode_lossy, decode_lossy_bytes, decode_strict,
    invalid_unit_len, lemma_lossy_of_valid, str_eq, surrogate_prefix_len, tail, valid_prefix_len,
    Utf8Error,
};
use vstd::prelude::*;
use vstd::slice::*;
use vstd::string::*;
use vstd::utf8::*;

verus! {

/// A text object, known to be one by a type check. Owns no reference.
#[derive(Clone, Copy, Debug, PartialEq, Eq, Structural)]
pub struct PyString {
    ptr: usize,
}

/// A byte-string object, known to be one by a type check. Owns no reference.
#[derive(Clone, Copy, Debug, PartialEq, Eq, Structural)]
pub struct PyBytes {
    ptr: usize,
}

/// How a decoder treats bytes that are not well-formed UTF-8.
#[derive(Clone, Copy, Debug, PartialEq, Eq, Structural)]
pub enum ErrorPolicy {
    /// Fail with a decode error.
    Strict,
    /// Put one replacement character in place of each ill-formed unit.
    Replace,
    /// Keep encoded surrogates; fail on anything else ill-formed.
    SurrogatePass,
}

/// The policy that an error-handler name selects, if any.
pub open spec fn policy_named(name: Seq<char>) -> Option<ErrorPolicy> {
    if name == "strict"@ {
        Some(ErrorPolicy::Strict)
    } else if name == "replace"@ {
        Some(ErrorPolicy::Replace)
    } else if name == "surrogatepass"@ {
        Some(ErrorPolicy::SurrogatePass)
    } else {
        None
    }
}

/// Whether the runtime knows an encoding by this name: only UTF-8.
pub open spec fn is_utf8_name(name: Seq<char>) -> bool {
    name == "utf-8"@ || name == "utf8"@
}

/// The payload of a text object decoded from `b` under `policy`, or the
/// range of the first unit that the policy rejects.
pub open spec fn decode_with(b: Seq<u8>, policy: ErrorPolicy) -> Result<Seq<u8>, (int, int)> {
    match policy {
        ErrorPolicy::Strict => if valid_utf8(b) {
            Ok(b)
        } else {
            Err((valid_prefix_len(b), valid_prefix_len(b) + invalid_unit_len(tail(b, valid_prefix_len(b)))))
        },
        ErrorPolicy::Replace => Ok(encode_utf8(decode_lossy(b))),
        ErrorPolicy::SurrogatePass => if surrogate_prefix_len(b) == b.len() {
            Ok(b)
        } else {
            Err((surrogate_prefix_len(b), surrogate_prefix_len(b) + invalid_unit_len(tail(b, surrogate_prefix_len(b)))))
        },
    }
}

/// Round trip: a text object made from any text holds well-formed UTF-8,
/// and reading it back, strictly or lossily, gives that text again.
pub proof fn lemma_text_round_trip(m: RuntimeModel, s: Seq<char>)
    ensures
        ({
            let m2 = m.apply(RefOp::New { kind: ObjKind::Str, data: encode_utf8(s) });
            let o = m2.objects[m.objects.len() as int];
            &&& m2.live(m.objects.len())
            &&& o.kind == ObjKind::Str
            &&& valid_utf8(o.data)
            &&& decode_utf8(o.data) == s
            &&& decode_lossy(o.data) == s
        }),
{
    encode_utf8_valid_utf8(s);
    encode_utf8_decode_utf8(s);
    lemma_lossy_of_valid(encode_utf8(s));
}

/// Byte fidelity: a byte-string object made from any bytes, zero bytes
/// included, holds exactly those bytes.
pub proof fn lemma_bytes_fidelity(m: RuntimeModel, b: Seq<u8>)
    ensures
        ({
            let m2 = m.apply(RefOp::New { kind: ObjKind::Bytes, data: b });
            let o = m2.objects[m.objects.len() as int];
            &&& m2.live(m.objects.len())
            &&& o.kind == ObjKind::Bytes
            &&& o.data == b
            &&& o.data.len() == b.len()
        }),
{
}

/// Selects the policy that `name` stands for.
pub fn parse_error_policy(name: &str) -> (r: Option<ErrorPolicy>)
    ensures
        r == policy_named(name@),
{
    proof {
        reveal_strlit("strict");
        reveal_strlit("replace");
        reveal_strlit("surrogatepass");
    }
    if str_eq(name, "strict") {
        Some(ErrorPolicy::Strict)
    } else if str_eq(name, "replace") {
        Some(ErrorPolicy::Replace)
    } else if str_eq(name, "surrogatepass") {
        Some(ErrorPolicy::SurrogatePass)
    } else {
        None
    }
}

/// The decode error for `b`, whose first ill-formed unit is `e`.
fn decode_error(b: &[u8], e: Utf8Error) -> (r: PyErr)
    requires
        e.valid_up_to < b@.len(),
        1 <= e.error_len <= 3,
        e.valid_up_to + e.error_len <= b@.len(),
    ensures
        r matches PyErr::UnicodeDecode { object, start, end } && object@ == b@ && start
            == e.valid_up_to && end == e.valid_up_to + e.error_len,
{
    proof {
        axiom_spec_len(b);
        assert(spec_slice_len(b) == b@.len());
    }
    let object = slice_to_vec(b);
    let end = e.valid_up_to + e.error_len;
    PyErr::UnicodeDecode { object, start: e.valid_up_to, end }
}

/// Decodes `b` under `policy` into the payload of a text object.
pub fn decode_bytes(b: &[u8], policy: ErrorPolicy) -> (r: Result<Vec<u8>, PyErr>)
    ensures
        r is Ok <==> decode_with(b@, policy) is Ok,
        r matches Ok(v) ==> decode_with(b@, policy) == Ok::<Seq<u8>, (int, int)>(v@),
        r matches Err(e) ==> e matches PyErr::UnicodeDecode { object, start, end } && object@
            == b@ && decode_with(b@, policy) == Err::<Seq<u8>, (int, int)>(
            (start as int, end as int),
        ),
{
    match policy {
        ErrorPolicy::Strict => match check_utf8(b) {
            Ok(()) => Ok(slice_to_vec(b)),
            Err(e) => Err(decode_error(b, e)),
        },
        ErrorPolicy::Replace => {
            let s = decode_lossy_bytes(b);
            Ok(slice_to_vec(s.as_str().as_bytes()))
        },
        ErrorPolicy::SurrogatePass => match check_utf8_with_surrogates(b) {
            Ok(()) => Ok(slice_to_vec(b)),
            Err(e) => Err(decode_error(b, e)),
        },
    }
}

impl PyString {
    /// Address of the object.
    pub closed spec fn ptr(self) -> nat {
        self.ptr as nat
    }

    /// `self` names a live text object of `m`.
    pub open spec fn is_str_in(self, m: RuntimeModel) -> bool {
        m.live(self.ptr()) && m.objects[self.ptr() as int].kind == ObjKind::Str
    }

    /// The payload of the text object in `m`.
    pub open spec fn bytes_in(self, m: RuntimeModel) -> Seq<u8> {
        m.objects[self.ptr() as int].data
    }

    /// Allocates a text object holding the UTF-8 form of `s`, with one
    /// reference owned by the result.
    pub fn new(rt: &mut Runtime, py: &Python, s: &str) -> (r: PyObject)
        requires
            old(rt).wf(),
            old(rt).holds(py),
            old(rt)@.objects.len() < usize::MAX,
        ensures
            final(rt).wf(),
            final(rt)@ == old(rt)@.apply(RefOp::New { kind: ObjKind::Str, data: s.spec_bytes() }),
            r.ptr() == old(rt)@.objects.len(),
    {
        let data = slice_to_vec(s.as_bytes());
        let p = rt.new_object(py, ObjKind::Str, data);
        PyObject::from_owned_ptr(p)
    }

    /// Asks the runtime to decode the byte-string object `src` with the named
    /// encoding and error policy, into a new text object.
    pub fn from_object(rt: &mut Runtime, py: &Python, src: PyObjectRef, encoding: &str, errors: &str) -> (r: Result<PyObject, PyErr>)
        requires
            old(rt).wf(),
            old(rt).holds(py),
            old(rt)@.live(src.ptr()),
            old(rt)@.objects.len() < usize::MAX,
        ensures
            final(rt).wf(),
            ({
                let o = old(rt)@.objects[src.ptr() as int];
                if o.kind != ObjKind::Bytes {
                    &&& final(rt)@ == old(rt)@
                    &&& r == Err::<PyObject, PyErr>(PyErr::TypeMismatch { expected: ObjKind::Bytes, found: o.kind })
                } else if !is_utf8_name(encoding@) {
                    &&& final(rt)@ == old(rt)@
                    &&& r matches Err(PyErr::Lookup { name }) && name@ == encoding@
                } else if policy_named(errors@) is None {
                    &&& final(rt)@ == old(rt)@
                    &&& r matches Err(PyErr::Lookup { name }) && name@ == errors@
                } else {
                    match decode_with(o.data, policy_named(errors@)->Some_0) {
                        Ok(text) => {
                            &&& final(rt)@ == old(rt)@.apply(RefOp::New { kind: ObjKind::Str, data: text })
                            &&& r matches Ok(obj) && obj.ptr() == old(rt)@.objects.len()
                        },
                        Err(range) => {
                            &&& final(rt)@ == old(rt)@
                            &&& r matches Err(PyErr::UnicodeDecode { object, start, end })
                            &&& object@ == o.data && start == range.0 && end == range.1
                        },
                    }
                }
            }),
    {
        let kind = rt.kind_of(py, src.as_ptr());
        if kind != ObjKind::Bytes {
            return Err(PyErr::TypeMismatch { expected: ObjKind::Bytes, found: kind });
        }
        proof {
            reveal_strlit("utf-8");
            reveal_strlit("utf8");
        }
        if !(str_eq(encoding, "utf-8") || str_eq(encoding, "utf8")) {
            return Err(PyErr::Lookup { name: encoding.to_owned() });
        }
        let policy = match parse_error_policy(errors) {
            Some(p) => p,
            None => {
                return Err(PyErr::Lookup { name: errors.to_owned() });
            },
        };
        let text = match decode_bytes(rt.payload(py, src.as_ptr()), policy) {
            Ok(t) => t,
            Err(e) => {
                return Err(e);
            },
        };
        let p = rt.new_object(py, ObjKind::Str, text);
        Ok(PyObject::from_owned_ptr(p))
    }

    /// Narrows `obj` to a text object after checking its type tag.
    pub fn try_from(rt: &Runtime, py: &Python, obj: PyObjectRef) -> (r: Result<PyString, PyErr>)
        requires
            rt.wf(),
            rt.holds(py),
            rt@.live(obj.ptr()),
        ensures
            r is Ok <==> rt@.objects[obj.ptr() as int].kind == ObjKind::Str,
            r matches Ok(s) ==> s.ptr() == obj.ptr() && s.is_str_in(rt@),
            r matches Err(e) ==> e == (PyErr::TypeMismatch {
                expected: ObjKind::Str,
                found: rt@.objects[obj.ptr() as int].kind,
            }),
    {
        let kind = rt.kind_of(py, obj.as_ptr());
        if kind == ObjKind::Str {
            Ok(PyString { ptr: obj.as_ptr() })
        } else {
            Err(PyErr::TypeMismatch { expected: ObjKind::Str, found: kind })
        }
    }

    /// The object seen without its type.
    pub fn as_object(&self) -> (r: PyObjectRef)
        ensures
            r.ptr() == self.ptr(),
    {
        PyObjectRef::from_borrowed_ptr(self.ptr)
    }

    /// The text's UTF-8 form, borrowed from the runtime.
    pub fn as_bytes<'a>(&self, rt: &'a Runtime, py: &Python) -> (r: &'a [u8])
        requires
            rt.wf(),
            rt.holds(py),
            self.is_str_in(rt@),
        ensures
            r@ == self.bytes_in(rt@),
    {
        rt.payload(py, self.ptr)
    }

    /// The text as a string borrowed from the runtime, or a decode error at
    /// the first ill-formed unit (such as an unpaired surrogate).
    pub fn to_string<'a>(&self, rt: &'a Runtime, py: &Python) -> (r: Result<&'a str, PyErr>)
        requires
            rt.wf(),
            rt.holds(py),
            self.is_str_in(rt@),
        ensures
            r is Ok <==> valid_utf8(self.bytes_in(rt@)),
            r matches Ok(s) ==> s@ == decode_utf8(self.bytes_in(rt@)),
            r matches Err(e) ==> {
                let b = self.bytes_in(rt@);
                let k = valid_prefix_len(b);
                &&& e matches PyErr::UnicodeDecode { object, start, end }
                &&& object@ == b
                &&& start == k
                &&& end == k + invalid_unit_len(tail(b, k))
            },
    {
        let b = self.as_bytes(rt, py);
        match decode_strict(b) {
            Ok(s) => Ok(s),
            Err(e) => Err(decode_error(b, e)),
        }
    }

    /// The text with each ill-formed unit replaced by U+FFFD.
    pub fn to_string_lossy(&self, rt: &Runtime, py: &Python) -> (r: String)
        requires
            rt.wf(),
            rt.holds(py),
            self.is_str_in(rt@),
        ensures
            r@ == decode_lossy(self.bytes_in(rt@)),
    {
        decode_lossy_bytes(self.as_bytes(rt, py))
    }
}

impl PyBytes {
    /// Address of the object.
    pub closed spec fn ptr(self) -> nat {
        self.ptr as nat
    }

    /// `self` names a live byte-string object of `m`.
    pub open spec fn is_bytes_in(self, m: RuntimeModel) -> bool {
        m.live(self.ptr()) && m.objects[self.ptr() as int].kind == ObjKind::Bytes
    }

    /// The payload of the byte-string object in `m`.
    pub open spec fn bytes_in(self, m: RuntimeModel) -> Seq<u8> {
        m.objects[self.ptr() as int].data
    }

    /// Allocates a byte-string object holding a copy of `s`, with one
    /// reference owned by the result.
    pub fn new(rt: &mut Runtime, py: &Python, s: &[u8]) -> (r: PyObject)
        requires
            old(rt).wf(),
            old(rt).holds(py),
            old(rt)@.objects.len() < usize::MAX,
        ensures
            final(rt).wf(),
            final(rt)@ == old(rt)@.apply(RefOp::New { kind: ObjKind::Bytes, data: s@ }),
            r.ptr() == old(rt)@.objects.len(),
    {
        let p = rt.new_object(py, ObjKind::Bytes, slice_to_vec(s));
        PyObject::from_owned_ptr(p)
    }

    /// Allocates a byte-string object holding a copy of the first `len`
    /// bytes of `ptr`.
    pub fn from_ptr(rt: &mut Runtime, py: &Python, ptr: &[u8], len: usize) -> (r: PyObject)
        requires
            old(rt).wf(),
            old(rt).holds(py),
            old(rt)@.objects.len() < usize::MAX,
            len <= ptr@.len(),
        ensures
            final(rt).wf(),
            final(rt)@ == old(rt)@.apply(
                RefOp::New { kind: ObjKind::Bytes, data: ptr@.subrange(0, len as int) },
            ),
            r.ptr() == old(rt)@.objects.len(),
    {
        PyBytes::new(rt, py, slice_subrange(ptr, 0, len))
    }

    /// Narrows `obj` to a byte-string object after checking its type tag.
    pub fn try_from(rt: &Runtime, py: &Python, obj: PyObjectRef) -> (r: Result<PyBytes, PyErr>)
        requires
            rt.wf(),
            rt.holds(py),
            rt@.live(obj.ptr()),
        ensures
            r is Ok <==> rt@.objects[obj.ptr() as int].kind == ObjKind::Bytes,
            r matches Ok(s) ==> s.ptr() == obj.ptr() && s.is_bytes_in(rt@),
            r matches Err(e) ==> e == (PyErr::TypeMismatch {
                expected: ObjKind::Bytes,
                found: rt@.objects[obj.ptr() as int].kind,
            }),
    {
        let kind = rt.kind_of(py, obj.as_ptr());
        if kind == ObjKind::Bytes {
            Ok(PyBytes { ptr: obj.as_ptr() })
        } else {
            Err(PyErr::TypeMismatch { expected: ObjKind::Bytes, found: kind })
        }
    }

    /// The object seen without its type.
    pub fn as_object(&self) -> (r: PyObjectRef)
        ensures
            r.ptr() == self.ptr(),
    {
        PyObjectRef::from_borrowed_ptr(self.ptr)
    }

    /// The bytes, exactly as stored (zero bytes included), borrowed from the
    /// runtime.
    pub fn as_bytes<'a>(&self, rt: &'a Runtime, py: &Python) -> (r: &'a [u8])
        requires
            rt.wf(),
            rt.holds(py),
            self.is_bytes_in(rt@),
        ensures
            r@ == self.bytes_in(rt@),
    {
        rt.payload(py, self.ptr)
    }
}

} // verus!
