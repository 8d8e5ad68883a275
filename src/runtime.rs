//! A foreign object runtime: a heap of reference-counted objects, each with a
//! type tag and a byte payload, serialised by a re-entrant global lock.
use vstd::prelude::*;

verus! {

/// The native type of a foreign object.
#[derive(Clone, Copy, Debug, PartialEq, Eq, Structural)]
pub enum ObjKind {
    Str,
    Bytes,
}

/// What one heap object is: its type tag, its payload and its reference count.
pub struct ObjectModel {
    pub kind: ObjKind,
    pub data: Seq<u8>,
    pub refcnt: nat,
}

/// The whole runtime state: every object ever allocated, by address, and how
/// many times the lock is currently held.
pub struct RuntimeModel {
    pub objects: Seq<ObjectModel>,
    pub gil_depth: nat,
}

/// A change to the reference counts of the heap.
pub enum RefOp {
    /// Allocate an object holding one reference.
    New { kind: ObjKind, data: Seq<u8> },
    /// Take one more reference to the object at an address.
    Clone { ptr: nat },
    /// Give back one reference to the object at an address.
    Drop { ptr: nat },
}

impl RuntimeModel {
    /// The object at `p` exists and someone holds a reference to it.
    pub open spec fn live(self, p: nat) -> bool {
        p < self.objects.len() && self.objects[p as int].refcnt > 0
    }

    /// A reference-count operation may be applied: a clone or a drop names a
    /// live object.
    pub open spec fn can_apply(self, op: RefOp) -> bool {
        match op {
            RefOp::New { .. } => true,
            RefOp::Clone { ptr } => self.live(ptr),
            RefOp::Drop { ptr } => self.live(ptr),
        }
    }

    /// The state after one reference-count operation. An object whose count
    /// falls to zero loses its payload.
    pub open spec fn apply(self, op: RefOp) -> RuntimeModel {
        match op {
            RefOp::New { kind, data } => RuntimeModel {
                objects: self.objects.push(ObjectModel { kind, data, refcnt: 1 }),
                ..self
            },
            RefOp::Clone { ptr } => {
                let o = self.objects[ptr as int];
                RuntimeModel {
                    objects: self.objects.update(ptr as int, ObjectModel { refcnt: o.refcnt + 1, ..o }),
                    ..self
                }
            },
            RefOp::Drop { ptr } => {
                let o = self.objects[ptr as int];
                let n = (o.refcnt - 1) as nat;
                let data = if n == 0 { Seq::empty() } else { o.data };
                RuntimeModel {
                    objects: self.objects.update(ptr as int, ObjectModel { kind: o.kind, data, refcnt: n }),
                    ..self
                }
            },
        }
    }
}

/// The state after applying `ops` in order.
pub open spec fn run(m: RuntimeModel, ops: Seq<RefOp>) -> RuntimeModel
    decreases ops.len(),
{
    if ops.len() == 0 {
        m
    } else {
        run(m.apply(ops[0]), ops.drop_first())
    }
}

/// Every operation of `ops`, applied in order from `m`, may be applied.
pub open spec fn can_run(m: RuntimeModel, ops: Seq<RefOp>) -> bool
    decreases ops.len(),
{
    ops.len() == 0 || (m.can_apply(ops[0]) && can_run(m.apply(ops[0]), ops.drop_first()))
}

/// How many references to the object at `p` the operations `ops` take, when
/// the heap holds `len` objects before them: one for the allocation that
/// creates it, one for each clone of it.
pub open spec fn acquired(ops: Seq<RefOp>, p: nat, len: nat) -> int
    decreases ops.len(),
{
    if ops.len() == 0 {
        0
    } else {
        let rest = ops.drop_first();
        match ops[0] {
            RefOp::New { .. } => (if p == len { 1int } else { 0int }) + acquired(rest, p, len + 1),
            RefOp::Clone { ptr } => (if p == ptr { 1int } else { 0int }) + acquired(rest, p, len),
            RefOp::Drop { .. } => acquired(rest, p, len),
        }
    }
}

/// How many references to the object at `p` the operations `ops` give back.
pub open spec fn released(ops: Seq<RefOp>, p: nat) -> int
    decreases ops.len(),
{
    if ops.len() == 0 {
        0
    } else {
        let rest = ops.drop_first();
        match ops[0] {
            RefOp::Drop { ptr } => (if p == ptr { 1int } else { 0int }) + released(rest, p),
            _ => released(rest, p),
        }
    }
}

/// Reference-count balance: after any run of allocations, clones and drops,
/// each object's count is its count before the run (zero for an object the
/// run allocated) plus the references the run took minus those it gave back.
/// Nothing leaks and nothing is released twice.
pub proof fn lemma_refcount_balance(m: RuntimeModel, ops: Seq<RefOp>, p: nat)
    requires
        can_run(m, ops),
        p < run(m, ops).objects.len(),
    ensures
        run(m, ops).objects.len() >= m.objects.len(),
        run(m, ops).objects[p as int].refcnt == (if p < m.objects.len() {
            m.objects[p as int].refcnt as int
        } else {
            0int
        }) + acquired(ops, p, m.objects.len()) - released(ops, p),
    decreases ops.len(),
{
    if ops.len() > 0 {
        let m1 = m.apply(ops[0]);
        lemma_refcount_balance(m1, ops.drop_first(), p);
    }
}

/// Proof that the global lock is held: handed out by `Runtime::acquire_gil`
/// and given back to `Runtime::release_gil`. Cannot be built or copied
/// elsewhere.
pub struct Python {
    level: usize,
}

impl Python {
    /// The lock depth at which this token was handed out.
    pub closed spec fn level(self) -> nat {
        self.level as nat
    }
}

/// The foreign runtime: objects live in three parallel tables indexed by
/// address.
pub struct Runtime {
    kinds: Vec<ObjKind>,
    payloads: Vec<Vec<u8>>,
    refcnts: Vec<usize>,
    gil_depth: usize,
}

impl View for Runtime {
    type V = RuntimeModel;

    closed spec fn view(&self) -> RuntimeModel {
        RuntimeModel {
            objects: Seq::new(
                self.kinds@.len(),
                |i: int|
                    ObjectModel {
                        kind: self.kinds@[i],
                        data: self.payloads@[i]@,
                        refcnt: self.refcnts@[i] as nat,
                    },
            ),
            gil_depth: self.gil_depth as nat,
        }
    }
}

impl Runtime {
    /// The three tables agree in length.
    pub closed spec fn wf(&self) -> bool {
        &&& self.payloads@.len() == self.kinds@.len()
        &&& self.refcnts@.len() == self.kinds@.len()
    }

    /// `py` is a token of a lock acquisition that has not been released.
    pub open spec fn holds(&self, py: &Python) -> bool {
        0 < py.level() <= self@.gil_depth
    }

    /// A runtime with an empty heap and the lock free.
    pub fn new() -> (r: Runtime)
        ensures
            r.wf(),
            r@.objects.len() == 0,
            r@.gil_depth == 0,
    {
        let r = Runtime { kinds: Vec::new(), payloads: Vec::new(), refcnts: Vec::new(), gil_depth: 0 };
        assert(r@.objects =~= Seq::<ObjectModel>::empty());
        r
    }

    /// How many times the lock is held.
    pub fn gil_depth(&self) -> (r: usize)
        ensures
            r == self@.gil_depth,
    {
        self.gil_depth
    }

    /// Number of objects ever allocated.
    pub fn object_count(&self) -> (r: usize)
        requires
            self.wf(),
        ensures
            r == self@.objects.len(),
    {
        self.kinds.len()
    }

    /// Takes the lock once more; the same owner may hold it several times.
    pub fn acquire_gil(&mut self) -> (py: Python)
        requires
            old(self)@.gil_depth < usize::MAX,
        ensures
            final(self).wf() == old(self).wf(),
            final(self)@ == (RuntimeModel { gil_depth: old(self)@.gil_depth + 1, ..old(self)@ }),
            py.level() == final(self)@.gil_depth,
            final(self).holds(&py),
    {
        self.gil_depth = self.gil_depth + 1;
        proof {
            assert(self@.objects =~= old(self)@.objects);
        }
        Python { level: self.gil_depth }
    }

    /// Gives back the innermost acquisition of the lock; at depth zero the
    /// lock is free.
    pub fn release_gil(&mut self, py: Python)
        requires
            py.level() == old(self)@.gil_depth,
            old(self).holds(&py),
        ensures
            final(self).wf() == old(self).wf(),
            final(self)@ == (RuntimeModel { gil_depth: (old(self)@.gil_depth - 1) as nat, ..old(self)@ }),
    {
        self.gil_depth = self.gil_depth - 1;
        proof {
            assert(self@.objects =~= old(self)@.objects);
        }
    }

    /// Allocates an object of type `kind` holding `data`, with one reference,
    /// and returns its address.
    pub fn new_object(&mut self, py: &Python, kind: ObjKind, data: Vec<u8>) -> (p: usize)
        requires
            old(self).wf(),
            old(self).holds(py),
            old(self)@.objects.len() < usize::MAX,
        ensures
            final(self).wf(),
            final(self)@ == old(self)@.apply(RefOp::New { kind, data: data@ }),
            p == old(self)@.objects.len(),
            final(self)@.live(p as nat),
    {
        let p = self.kinds.len();
        let ghost d = data@;
        self.kinds.push(kind);
        self.payloads.push(data);
        self.refcnts.push(1);
        proof {
            assert(self@.objects =~= old(self)@.objects.push(ObjectModel { kind, data: d, refcnt: 1 }));
        }
        p
    }

    /// Takes one more reference to the live object at `p`.
    pub fn incref(&mut self, py: &Python, p: usize)
        requires
            old(self).wf(),
            old(self).holds(py),
            old(self)@.live(p as nat),
            old(self)@.objects[p as int].refcnt < usize::MAX,
        ensures
            final(self).wf(),
            final(self)@ == old(self)@.apply(RefOp::Clone { ptr: p as nat }),
    {
        let c = self.refcnts[p];
        self.refcnts.set(p, c + 1);
        proof {
            let o = old(self)@.objects[p as int];
            assert(self@.objects =~= old(self)@.objects.update(p as int, ObjectModel { refcnt: o.refcnt + 1, ..o }));
        }
    }

    /// Gives back one reference to the live object at `p`; the last one
    /// frees its payload.
    pub fn decref(&mut self, py: &Python, p: usize)
        requires
            old(self).wf(),
            old(self).holds(py),
            old(self)@.live(p as nat),
        ensures
            final(self).wf(),
            final(self)@ == old(self)@.apply(RefOp::Drop { ptr: p as nat }),
    {
        let c = self.refcnts[p];
        self.refcnts.set(p, c - 1);
        if c == 1 {
            self.payloads.set(p, Vec::new());
        }
        proof {
            let o = old(self)@.objects[p as int];
            let n = (o.refcnt - 1) as nat;
            let data = if n == 0 { Seq::empty() } else { o.data };
            assert(self@.objects =~= old(self)@.objects.update(p as int, ObjectModel { kind: o.kind, data, refcnt: n }));
        }
    }

    /// The type tag of the live object at `p`.
    pub fn kind_of(&self, py: &Python, p: usize) -> (k: ObjKind)
        requires
            self.wf(),
            self.holds(py),
            self@.live(p as nat),
        ensures
            k == self@.objects[p as int].kind,
    {
        self.kinds[p]
    }

    /// The payload of the live object at `p`, borrowed from the runtime.
    pub fn payload<'a>(&'a self, py: &Python, p: usize) -> (r: &'a [u8])
        requires
            self.wf(),
            self.holds(py),
            self@.live(p as nat),
        ensures
            r@ == self@.objects[p as int].data,
    {
        self.payloads[p].as_slice()
    }

    /// The reference count of the object at `p`.
    pub fn refcnt(&self, p: usize) -> (r: usize)
        requires
            self.wf(),
            p < self@.objects.len(),
        ensures
            r == self@.objects[p as int].refcnt,
    {
        self.refcnts[p]
    }
}

} // verus!
