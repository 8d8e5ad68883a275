//! Owning and borrowed references to foreign objects.
use crate::runtime::{Python, RefOp, Runtime};
use vstd::prelude::*;

verus! {

/// Holds exactly one strong reference to a foreign object. It is neither
/// `Clone` nor `Copy`: `clone_ref` takes another reference, and `release`
/// consumes the handle and gives its reference back.
#[derive(Debug)]
pub struct PyObject {
    ptr: usize,
}

/// A view of a foreign object that owns no reference and never changes a
/// count.
#[derive(Clone, Copy, Debug, PartialEq, Eq, Structural)]
pub struct PyObjectRef {
    ptr: usize,
}

impl PyObject {
    /// Address of the object.
    pub closed spec fn ptr(self) -> nat {
        self.ptr as nat
    }

    /// Takes charge of a reference already counted for the object at `p`.
    pub(crate) fn from_owned_ptr(p: usize) -> (r: PyObject)
        ensures
            r.ptr() == p,
    {
        PyObject { ptr: p }
    }

    /// Address of the object.
    pub fn as_ptr(&self) -> (r: usize)
        ensures
            r == self.ptr(),
    {
        self.ptr
    }

    /// A borrowed view of the same object.
    pub fn as_ref(&self) -> (r: PyObjectRef)
        ensures
            r.ptr() == self.ptr(),
    {
        PyObjectRef { ptr: self.ptr }
    }

    /// Takes one more reference to the object.
    pub fn clone_ref(&self, rt: &mut Runtime, py: &Python) -> (r: PyObject)
        requires
            old(rt).wf(),
            old(rt).holds(py),
            old(rt)@.live(self.ptr()),
            old(rt)@.objects[self.ptr() as int].refcnt < usize::MAX,
        ensures
            final(rt).wf(),
            final(rt)@ == old(rt)@.apply(RefOp::Clone { ptr: self.ptr() }),
            r.ptr() == self.ptr(),
    {
        rt.incref(py, self.ptr);
        PyObject { ptr: self.ptr }
    }

    /// Gives back the reference this handle holds.
    pub fn release(self, rt: &mut Runtime, py: &Python)
        requires
            old(rt).wf(),
            old(rt).holds(py),
            old(rt)@.live(self.ptr()),
        ensures
            final(rt).wf(),
            final(rt)@ == old(rt)@.apply(RefOp::Drop { ptr: self.ptr() }),
    {
        rt.decref(py, self.ptr);
    }

    /// The object's current reference count.
    pub fn get_refcnt(&self, rt: &Runtime) -> (r: usize)
        requires
            rt.wf(),
            self.ptr() < rt@.objects.len(),
        ensures
            r == rt@.objects[self.ptr() as int].refcnt,
    {
        rt.refcnt(self.ptr)
    }
}

impl PyObjectRef {
    /// Address of the object.
    pub closed spec fn ptr(self) -> nat {
        self.ptr as nat
    }

    /// A view of the object at `p`.
    pub(crate) fn from_borrowed_ptr(p: usize) -> (r: PyObjectRef)
        ensures
            r.ptr() == p,
    {
        PyObjectRef { ptr: p }
    }

    /// Address of the object.
    pub fn as_ptr(&self) -> (r: usize)
        ensures
            r == self.ptr(),
    {
        self.ptr
    }
}

} // verus!
