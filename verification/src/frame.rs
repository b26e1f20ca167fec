//! One activation record: the running code, the instruction pointer, the
//! operand stack, and the local and global namespaces.
//!
//! A frame holds its namespaces by reference into the arena, so two frames
//! can share one namespace object and observe each other's bindings.

use vstd::prelude::*;

use crate::pyobject::{PyObject, PyObjectKind, PyObjectRef};

verus! {

/// An activation record. `code_ref` names a code object in the arena;
/// `locals` and `globals` name dictionary objects there.
#[derive(Debug)]
pub struct Frame {
    pub code_ref: PyObjectRef,
    pub pc: usize,
    pub stack: Vec<PyObjectRef>,
    pub locals: PyObjectRef,
    pub globals: PyObjectRef,
}

/// A frame refers only into the arena, its code is a code object, and its
/// namespaces are dictionaries.
pub open spec fn frame_ok(f: Frame, objs: Seq<PyObject>) -> bool {
    &&& f.code_ref < objs.len()
    &&& objs[f.code_ref as int].kind is CodeObj
    &&& f.locals < objs.len()
    &&& objs[f.locals as int].kind is Dict
    &&& f.globals < objs.len()
    &&& objs[f.globals as int].kind is Dict
    &&& forall|i: int| 0 <= i < f.stack@.len() ==> (#[trigger] f.stack@[i]) < objs.len()
}

/// Growing the arena keeps every frame well formed.
pub proof fn frame_ok_grow(f: Frame, objs: Seq<PyObject>, o: PyObject)
    requires
        frame_ok(f, objs),
    ensures
        frame_ok(f, objs.push(o)),
{
    let p = objs.push(o);
    assert(p[f.code_ref as int] == objs[f.code_ref as int]);
    assert(p[f.locals as int] == objs[f.locals as int]);
    assert(p[f.globals as int] == objs[f.globals as int]);
}

} // verus!
