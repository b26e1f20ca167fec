//! The runtime object model: the universal tagged value, the arena that
//! gives every value a stable identity, and the dispatch helpers every other
//! component uses.
//!
//! Values alias freely: a `PyObjectRef` is an index into the executor's
//! arena, so any number of holders may refer to one object, and a mutation
//! through one reference is visible through every other — identity, not
//! structural equality, decides whether two references observe each other's
//! mutations.

use vstd::prelude::*;

use crate::bytecode::CodeObject;
use crate::frame::Frame;
use crate::frame::frame_ok;
use vstd::string::StringExecFns;

verus! {

/// A shared reference to a runtime object: its index in the executor arena.
pub type PyObjectRef = usize;

/// The closed registry of native function bodies.
#[derive(Debug, PartialEq, Eq, Structural, Clone, Copy)]
pub enum NativeFn {
    Print,
    IntStr,
}

/// The kind tag of a runtime object, with that kind's payload.
#[derive(Debug)]
pub enum PyObjectKind {
    NoneObj,
    Boolean { value: bool },
    Int { value: i64 },
    Str { value: String },
    List { elements: Vec<PyObjectRef> },
    Tuple { elements: Vec<PyObjectRef> },
    Dict { entries: Vec<(String, PyObjectRef)> },
    Class { name: String, entries: Vec<(String, PyObjectRef)> },
    Instance { entries: Vec<(String, PyObjectRef)> },
    NativeFunction { function: NativeFn },
    CodeObj { code: CodeObject },
    Module { name: String, dict: PyObjectRef },
}

/// One runtime object: a kind plus the reference to its type object.
#[derive(Debug)]
pub struct PyObject {
    pub kind: PyObjectKind,
    pub typ: PyObjectRef,
}

impl PyObject {
    /// Pairs a kind with its type reference.
    pub fn new(kind: PyObjectKind, typ: PyObjectRef) -> (r: PyObject)
        ensures
            r.kind == kind,
            r.typ == typ,
    {
        PyObject { kind, typ }
    }
}

/// First entry at or after `i` whose key reads as `name`.
pub open spec fn dict_get_from(
    entries: Seq<(String, PyObjectRef)>,
    name: Seq<char>,
    i: int,
) -> Option<PyObjectRef>
    decreases entries.len() - i,
{
    if i < 0 || i >= entries.len() {
        Option::None
    } else if entries[i].0@ == name {
        Option::Some(entries[i].1)
    } else {
        dict_get_from(entries, name, i + 1)
    }
}

/// What a name is bound to in a dictionary's entry list.
pub open spec fn dict_get(entries: Seq<(String, PyObjectRef)>, name: Seq<char>) -> Option<
    PyObjectRef,
> {
    dict_get_from(entries, name, 0)
}

/// Every reference a kind's payload holds lies below `n`.
pub open spec fn kind_refs_ok(k: PyObjectKind, n: int) -> bool {
    match k {
        PyObjectKind::List { elements } => forall|i: int|
            0 <= i < elements@.len() ==> (#[trigger] elements@[i]) < n,
        PyObjectKind::Tuple { elements } => forall|i: int|
            0 <= i < elements@.len() ==> (#[trigger] elements@[i]) < n,
        PyObjectKind::Dict { entries } => forall|i: int|
            0 <= i < entries@.len() ==> (#[trigger] entries@[i]).1 < n,
        PyObjectKind::Class { name, entries } => forall|i: int|
            0 <= i < entries@.len() ==> (#[trigger] entries@[i]).1 < n,
        PyObjectKind::Instance { entries } => forall|i: int|
            0 <= i < entries@.len() ==> (#[trigger] entries@[i]).1 < n,
        PyObjectKind::Module { name, dict } => dict < n,
        _ => true,
    }
}

pub open spec fn obj_ok(o: PyObject, n: int) -> bool {
    o.typ < n && kind_refs_ok(o.kind, n)
}

/// Every object in the arena points only at objects in the arena.
pub open spec fn heap_ok(objs: Seq<PyObject>) -> bool {
    forall|i: int| 0 <= i < objs.len() ==> obj_ok(#[trigger] objs[i], objs.len() as int)
}

proof fn obj_ok_mono(o: PyObject, n: int, m: int)
    requires
        obj_ok(o, n),
        n <= m,
    ensures
        obj_ok(o, m),
{
}

proof fn heap_ok_push(objs: Seq<PyObject>, o: PyObject)
    requires
        heap_ok(objs),
        obj_ok(o, objs.len() as int + 1),
    ensures
        heap_ok(objs.push(o)),
{
    let p = objs.push(o);
    assert forall|i: int| 0 <= i < p.len() implies obj_ok(#[trigger] p[i], p.len() as int) by {
        if i < objs.len() {
            assert(p[i] == objs[i]);
            obj_ok_mono(objs[i], objs.len() as int, p.len() as int);
        } else {
            assert(p[i] == o);
        }
    }
}

/// The process-wide runtime state: the object arena, the interned
/// singletons, the built-in class registry, the module cache, the call
/// stack, and the record of what was printed.
#[derive(Debug)]
pub struct Executor {
    pub objects: Vec<PyObject>,
    pub none_ref: PyObjectRef,
    pub true_ref: PyObjectRef,
    pub false_ref: PyObjectRef,
    pub type_type: PyObjectRef,
    pub int_type: PyObjectRef,
    pub builtins: PyObjectRef,
    pub modules: Vec<(String, PyObjectRef)>,
    pub frames: Vec<Frame>,
    pub output: Vec<PyObjectRef>,
}

impl Executor {
    pub open spec fn ref_ok(&self, r: PyObjectRef) -> bool {
        r < self.objects@.len()
    }

    /// The entry list of a dictionary-like object; empty for other kinds.
    pub open spec fn entries_of(&self, r: PyObjectRef) -> Seq<(String, PyObjectRef)> {
        match self.objects@[r as int].kind {
            PyObjectKind::Dict { entries } => entries@,
            PyObjectKind::Class { name, entries } => entries@,
            PyObjectKind::Instance { entries } => entries@,
            _ => Seq::empty(),
        }
    }

    pub open spec fn is_native(&self, r: PyObjectRef, f: NativeFn) -> bool {
        &&& self.ref_ok(r)
        &&& self.objects@[r as int].kind matches PyObjectKind::NativeFunction { function }
            && function == f
    }

    /// The executor's well-formedness: the heap is closed, the singletons
    /// and registered classes have their kinds, the module cache and every
    /// frame refer only into the arena.
    pub open spec fn wf(&self) -> bool {
        &&& heap_ok(self.objects@)
        &&& self.ref_ok(self.none_ref) && self.objects@[self.none_ref as int].kind is NoneObj
        &&& self.ref_ok(self.true_ref) && (self.objects@[self.true_ref as int].kind matches
            PyObjectKind::Boolean { value } && value == true)
        &&& self.ref_ok(self.false_ref) && (self.objects@[self.false_ref as int].kind matches
            PyObjectKind::Boolean { value } && value == false)
        &&& self.ref_ok(self.type_type) && self.objects@[self.type_type as int].kind is Class
        &&& self.ref_ok(self.int_type) && self.objects@[self.int_type as int].kind is Class
        &&& self.ref_ok(self.builtins) && self.objects@[self.builtins as int].kind is Dict
        &&& forall|i: int|
            0 <= i < self.modules@.len() ==> (#[trigger] self.modules@[i]).1
                < self.objects@.len()
        &&& forall|i: int|
            0 <= i < self.frames@.len() ==> frame_ok(#[trigger] self.frames@[i], self.objects@)
    }

    /// Everything outside the arena is unchanged between two states.
    pub open spec fn same_but_objects(pre: Executor, post: Executor) -> bool {
        &&& post.none_ref == pre.none_ref
        &&& post.true_ref == pre.true_ref
        &&& post.false_ref == pre.false_ref
        &&& post.type_type == pre.type_type
        &&& post.int_type == pre.int_type
        &&& post.builtins == pre.builtins
        &&& post.modules == pre.modules
        &&& post.frames == pre.frames
        &&& post.output == pre.output
    }

    /// Appends one object to the arena and hands back its identity.
    pub fn store(&mut self, obj: PyObject) -> (r: PyObjectRef)
        requires
            old(self).wf(),
            obj_ok(obj, old(self).objects@.len() as int + 1),
        ensures
            final(self).wf(),
            Executor::same_but_objects(*old(self), *final(self)),
            r == old(self).objects@.len(),
            final(self).objects@ == old(self).objects@.push(obj),
    {
        let r = self.objects.len();
        proof {
            heap_ok_push(self.objects@, obj);
            assert forall|i: int| 0 <= i < self.frames@.len() implies frame_ok(
                #[trigger] self.frames@[i],
                self.objects@.push(obj),
            ) by {
                crate::frame::frame_ok_grow(self.frames@[i], self.objects@, obj);
            }
        }
        self.objects.push(obj);
        r
    }

    /// Builds an integer object of the registered integer class.
    pub fn new_int(&mut self, value: i64) -> (r: PyObjectRef)
        requires
            old(self).wf(),
        ensures
            final(self).wf(),
            Executor::same_but_objects(*old(self), *final(self)),
            r == old(self).objects@.len(),
            final(self).objects@ == old(self).objects@.push(
                PyObject { kind: PyObjectKind::Int { value }, typ: old(self).int_type },
            ),
    {
        let t = self.int_type;
        self.store(PyObject { kind: PyObjectKind::Int { value }, typ: t })
    }

    /// Builds a string object.
    pub fn new_str(&mut self, value: String) -> (r: PyObjectRef)
        requires
            old(self).wf(),
        ensures
            final(self).wf(),
            Executor::same_but_objects(*old(self), *final(self)),
            r == old(self).objects@.len(),
            final(self).objects@ == old(self).objects@.push(
                PyObject { kind: PyObjectKind::Str { value }, typ: old(self).type_type },
            ),
    {
        let t = self.type_type;
        self.store(PyObject { kind: PyObjectKind::Str { value }, typ: t })
    }

    /// Hands out the interned boolean singleton for `value`.
    pub fn new_bool(&mut self, value: bool) -> (r: PyObjectRef)
        requires
            old(self).wf(),
        ensures
            final(self).wf(),
            *final(self) == *old(self),
            r == if value {
                old(self).true_ref
            } else {
                old(self).false_ref
            },
    {
        if value {
            self.true_ref
        } else {
            self.false_ref
        }
    }

    /// Hands out the interned none singleton.
    pub fn new_none(&mut self) -> (r: PyObjectRef)
        requires
            old(self).wf(),
        ensures
            final(self).wf(),
            *final(self) == *old(self),
            r == old(self).none_ref,
    {
        self.none_ref
    }

    /// Builds a list object holding the given element references.
    pub fn new_list(&mut self, elements: Vec<PyObjectRef>) -> (r: PyObjectRef)
        requires
            old(self).wf(),
            forall|i: int|
                0 <= i < elements@.len() ==> (#[trigger] elements@[i])
                    < old(self).objects@.len(),
        ensures
            final(self).wf(),
            Executor::same_but_objects(*old(self), *final(self)),
            r == old(self).objects@.len(),
            final(self).objects@ == old(self).objects@.push(
                PyObject { kind: PyObjectKind::List { elements }, typ: old(self).type_type },
            ),
    {
        let t = self.type_type;
        self.store(PyObject { kind: PyObjectKind::List { elements }, typ: t })
    }

    /// Builds an empty dictionary object.
    pub fn new_dict(&mut self) -> (r: PyObjectRef)
        requires
            old(self).wf(),
        ensures
            final(self).wf(),
            Executor::same_but_objects(*old(self), *final(self)),
            r == old(self).objects@.len(),
            final(self).objects@.len() == old(self).objects@.len() + 1,
            final(self).objects@ =~= old(self).objects@.push(final(self).objects@[r as int]),
            final(self).objects@[r as int].kind matches PyObjectKind::Dict { entries } && entries@
                =~= Seq::<(String, PyObjectRef)>::empty(),
    {
        let t = self.type_type;
        let entries: Vec<(String, PyObjectRef)> = Vec::new();
        let r = self.store(PyObject { kind: PyObjectKind::Dict { entries }, typ: t });
        r
    }

    /// Builds a code object value.
    pub fn new_code(&mut self, code: CodeObject) -> (r: PyObjectRef)
        requires
            old(self).wf(),
        ensures
            final(self).wf(),
            Executor::same_but_objects(*old(self), *final(self)),
            r == old(self).objects@.len(),
            final(self).objects@ == old(self).objects@.push(
                PyObject { kind: PyObjectKind::CodeObj { code }, typ: old(self).type_type },
            ),
    {
        let t = self.type_type;
        self.store(PyObject { kind: PyObjectKind::CodeObj { code }, typ: t })
    }

    /// Builds a module object over an already-built namespace dictionary.
    pub fn new_module(&mut self, name: String, dict: PyObjectRef) -> (r: PyObjectRef)
        requires
            old(self).wf(),
            dict < old(self).objects@.len(),
        ensures
            final(self).wf(),
            Executor::same_but_objects(*old(self), *final(self)),
            r == old(self).objects@.len(),
            final(self).objects@ == old(self).objects@.push(
                PyObject { kind: PyObjectKind::Module { name, dict }, typ: old(self).type_type },
            ),
    {
        let t = self.type_type;
        self.store(PyObject { kind: PyObjectKind::Module { name, dict }, typ: t })
    }

    /// Looks a name up in a dictionary-like object's own entries.
    pub fn dict_lookup(&self, dref: PyObjectRef, name: &String) -> (r: Option<PyObjectRef>)
        requires
            self.ref_ok(dref),
        ensures
            r == dict_get(self.entries_of(dref), name@),
    {
        match &self.objects[dref].kind {
            PyObjectKind::Dict { entries } => dict_find_ref(entries, name, 0),
            PyObjectKind::Class { name: _n, entries } => dict_find_ref(entries, name, 0),
            PyObjectKind::Instance { entries } => dict_find_ref(entries, name, 0),
            _ => Option::None,
        }
    }
}

pub(crate) fn dict_find_ref(entries: &Vec<(String, PyObjectRef)>, name: &String, i: usize) -> (r: Option<
    PyObjectRef,
>)
    requires
        i <= entries@.len(),
    ensures
        r == dict_get_from(entries@, name@, i as int),
    decreases entries@.len() - i,
{
    if i >= entries.len() {
        return Option::None;
    }
    let e = &entries[i];
    if e.0.eq(name) {
        Option::Some(e.1)
    } else {
        dict_find_ref(entries, name, i + 1)
    }
}


/// Index of the first entry at or after `i` whose key reads as `name`.
pub open spec fn dict_find_from(
    entries: Seq<(String, PyObjectRef)>,
    name: Seq<char>,
    i: int,
) -> Option<int>
    decreases entries.len() - i,
{
    if i < 0 || i >= entries.len() {
        Option::None
    } else if entries[i].0@ == name {
        Option::Some(i)
    } else {
        dict_find_from(entries, name, i + 1)
    }
}

proof fn lemma_find_get(entries: Seq<(String, PyObjectRef)>, name: Seq<char>, i: int)
    ensures
        match dict_find_from(entries, name, i) {
            Option::Some(k) => i <= k < entries.len() && entries[k].0@ == name && dict_get_from(
                entries,
                name,
                i,
            ) == Option::Some(entries[k].1) && (forall|j: int|
                i <= j < k ==> (#[trigger] entries[j]).0@ != name),
            Option::None => dict_get_from(entries, name, i) is None,
        },
    decreases entries.len() - i,
{
    if 0 <= i < entries.len() && entries[i].0@ != name {
        lemma_find_get(entries, name, i + 1);
    }
}

proof fn lemma_dict_update_same(
    e: Seq<(String, PyObjectRef)>,
    k: int,
    x: (String, PyObjectRef),
    i: int,
)
    requires
        0 <= i <= k,
        k < e.len(),
        x.0@ == e[k].0@,
        forall|j: int| i <= j < k ==> (#[trigger] e[j]).0@ != x.0@,
    ensures
        dict_get_from(e.update(k, x), x.0@, i) == Option::Some(x.1),
    decreases e.len() - i,
{
    let e2 = e.update(k, x);
    if i < k {
        assert(e2[i] == e[i]);
        lemma_dict_update_same(e, k, x, i + 1);
    } else {
        assert(e2[k] == x);
    }
}

proof fn lemma_dict_update_other(
    e: Seq<(String, PyObjectRef)>,
    k: int,
    x: (String, PyObjectRef),
    n: Seq<char>,
    i: int,
)
    requires
        0 <= i,
        0 <= k < e.len(),
        x.0@ == e[k].0@,
        n != x.0@,
    ensures
        dict_get_from(e.update(k, x), n, i) == dict_get_from(e, n, i),
    decreases e.len() - i,
{
    if 0 <= i < e.len() {
        if i != k {
            assert(e.update(k, x)[i] == e[i]);
        } else {
            assert(e.update(k, x)[k] == x);
        }
        lemma_dict_update_other(e, k, x, n, i + 1);
    }
}

pub(crate) proof fn lemma_dict_push_found(e: Seq<(String, PyObjectRef)>, x: (String, PyObjectRef), i: int)
    requires
        0 <= i <= e.len(),
        dict_get_from(e, x.0@, i) is None,
    ensures
        dict_get_from(e.push(x), x.0@, i) == Option::Some(x.1),
    decreases e.len() + 1 - i,
{
    if i < e.len() {
        assert(e.push(x)[i] == e[i]);
        lemma_dict_push_found(e, x, i + 1);
    } else {
        assert(e.push(x)[e.len() as int] == x);
    }
}

pub(crate) proof fn lemma_dict_push_other(
    e: Seq<(String, PyObjectRef)>,
    x: (String, PyObjectRef),
    n: Seq<char>,
    i: int,
)
    requires
        0 <= i <= e.len(),
        n != x.0@,
    ensures
        dict_get_from(e.push(x), n, i) == dict_get_from(e, n, i),
    decreases e.len() + 1 - i,
{
    if i < e.len() {
        assert(e.push(x)[i] == e[i]);
        lemma_dict_push_other(e, x, n, i + 1);
    } else {
        assert(e.push(x)[e.len() as int] == x);
        assert(dict_get_from(e.push(x), n, e.len() as int + 1) is None);
    }
}

fn dict_find_idx(entries: &Vec<(String, PyObjectRef)>, name: &String, i: usize) -> (r: Option<
    usize,
>)
    requires
        i <= entries@.len(),
    ensures
        match r {
            Option::Some(k) => dict_find_from(entries@, name@, i as int) == Option::Some(
                k as int,
            ) && k < entries@.len(),
            Option::None => dict_find_from(entries@, name@, i as int) is None,
        },
    decreases entries@.len() - i,
{
    if i >= entries.len() {
        return Option::None;
    }
    let e = &entries[i];
    if e.0.eq(name) {
        Option::Some(i)
    } else {
        dict_find_idx(entries, name, i + 1)
    }
}

impl Executor {
    /// The elements a list object holds; empty for other kinds.
    pub open spec fn list_elems(&self, r: PyObjectRef) -> Seq<PyObjectRef> {
        match self.objects@[r as int].kind {
            PyObjectKind::List { elements } => elements@,
            _ => Seq::empty(),
        }
    }

    /// Binds `name` to `value` in a dictionary object, overwriting an
    /// existing binding of the same name and leaving every other binding,
    /// and every other object, as it was.
    pub fn dict_put(&mut self, dref: PyObjectRef, name: &String, value: PyObjectRef)
        requires
            old(self).wf(),
            old(self).ref_ok(dref),
            old(self).objects@[dref as int].kind is Dict,
            old(self).ref_ok(value),
        ensures
            final(self).wf(),
            Executor::same_but_objects(*old(self), *final(self)),
            final(self).objects@.len() == old(self).objects@.len(),
            forall|i: int|
                0 <= i < old(self).objects@.len() && i != dref ==> final(self).objects@[i]
                    == old(self).objects@[i],
            final(self).objects@[dref as int].typ == old(self).objects@[dref as int].typ,
            final(self).objects@[dref as int].kind is Dict,
            dict_get(final(self).entries_of(dref), name@) == Option::Some(value),
            forall|n: Seq<char>|
                n != name@ ==> #[trigger] dict_get(final(self).entries_of(dref), n) == dict_get(
                    old(self).entries_of(dref),
                    n,
                ),
    {
        let ghost pre = *self;
        let o = &mut self.objects[dref];
        match &mut o.kind {
            PyObjectKind::Dict { entries } => {
                let ghost olde = entries@;
                let found = dict_find_idx(entries, name, 0);
                match found {
                    Option::Some(k) => {
                        let x = (name.clone(), value);
                        entries[k] = x;
                    },
                    Option::None => {
                        entries.push((name.clone(), value));
                    },
                }
            },
            _ => {
                proof {
                    assert(false);
                }
            },
        }
        proof {
            let post = *self;
            let olde = pre.entries_of(dref);
            let newe = post.entries_of(dref);
            lemma_find_get(olde, name@, 0);
            match dict_find_from(olde, name@, 0) {
                Option::Some(k) => {
                    assert(newe == olde.update(k, newe[k]));
                    assert(newe[k].0@ == name@);
                    lemma_dict_update_same(olde, k, newe[k], 0);
                    assert forall|n: Seq<char>| n != name@ implies #[trigger] dict_get(newe, n)
                        == dict_get(olde, n) by {
                        lemma_dict_update_other(olde, k, newe[k], n, 0);
                    }
                },
                Option::None => {
                    assert(newe == olde.push(newe[newe.len() - 1]));
                    assert(newe[newe.len() - 1].0@ == name@);
                    lemma_dict_push_found(olde, newe[newe.len() - 1], 0);
                    assert forall|n: Seq<char>| n != name@ implies #[trigger] dict_get(newe, n)
                        == dict_get(olde, n) by {
                        lemma_dict_push_other(olde, newe[newe.len() - 1], n, 0);
                    }
                },
            }
            assert forall|i: int|
                0 <= i < post.objects@.len() implies obj_ok(
                #[trigger] post.objects@[i],
                post.objects@.len() as int,
            ) by {
                if i != dref {
                    assert(post.objects@[i] == pre.objects@[i]);
                }
            }
            assert forall|i: int| 0 <= i < post.frames@.len() implies frame_ok(
                #[trigger] post.frames@[i],
                post.objects@,
            ) by {
                assert(frame_ok(pre.frames@[i], pre.objects@));
            }
        }
    }

    /// Appends one element to a list object, in place: every holder of the
    /// same reference sees the longer list.
    pub fn list_append(&mut self, lref: PyObjectRef, item: PyObjectRef)
        requires
            old(self).wf(),
            old(self).ref_ok(lref),
            old(self).objects@[lref as int].kind is List,
            old(self).ref_ok(item),
        ensures
            final(self).wf(),
            Executor::same_but_objects(*old(self), *final(self)),
            final(self).objects@.len() == old(self).objects@.len(),
            forall|i: int|
                0 <= i < old(self).objects@.len() && i != lref ==> final(self).objects@[i]
                    == old(self).objects@[i],
            final(self).objects@[lref as int].typ == old(self).objects@[lref as int].typ,
            final(self).objects@[lref as int].kind is List,
            final(self).list_elems(lref) == old(self).list_elems(lref).push(item),
    {
        let ghost pre = *self;
        let o = &mut self.objects[lref];
        match &mut o.kind {
            PyObjectKind::List { elements } => {
                elements.push(item);
            },
            _ => {
                proof {
                    assert(false);
                }
            },
        }
        proof {
            let post = *self;
            assert forall|i: int|
                0 <= i < post.objects@.len() implies obj_ok(
                #[trigger] post.objects@[i],
                post.objects@.len() as int,
            ) by {
                if i != lref {
                    assert(post.objects@[i] == pre.objects@[i]);
                }
            }
            assert forall|i: int| 0 <= i < post.frames@.len() implies frame_ok(
                #[trigger] post.frames@[i],
                post.objects@,
            ) by {
                assert(frame_ok(pre.frames@[i], pre.objects@));
            }
        }
    }

    /// The length of a list object, read through any reference to it.
    pub fn list_len(&self, lref: PyObjectRef) -> (r: usize)
        requires
            self.ref_ok(lref),
        ensures
            r == self.list_elems(lref).len(),
    {
        match &self.objects[lref].kind {
            PyObjectKind::List { elements } => elements.len(),
            _ => 0,
        }
    }
}

/// Two references to the same list observe each other's mutation: after an
/// append through one reference, the length and the last element read
/// through any identity-equal reference reflect that append.
pub proof fn lemma_shared_list_mutation(
    pre: Executor,
    post: Executor,
    r1: PyObjectRef,
    r2: PyObjectRef,
    item: PyObjectRef,
)
    requires
        r1 == r2,
        post.list_elems(r1) == pre.list_elems(r1).push(item),
    ensures
        post.list_elems(r2).len() == pre.list_elems(r2).len() + 1,
        post.list_elems(r2)[post.list_elems(r2).len() - 1] == item,
{
}


/// What a name resolves to along a class's dictionary chain: the class's
/// own entries first, then its type's entries, and so on, stopping at the
/// root type object, which is its own type. The chain is finite, so a walk
/// of at most `fuel` steps decides it.
pub open spec fn class_chain_lookup(
    objs: Seq<PyObject>,
    cls: int,
    name: Seq<char>,
    fuel: nat,
) -> Option<PyObjectRef>
    decreases fuel,
{
    if fuel == 0 {
        Option::None
    } else if 0 <= cls < objs.len() {
        let entries = match objs[cls].kind {
            PyObjectKind::Class { name: cn, entries } => entries@,
            _ => Seq::empty(),
        };
        match dict_get(entries, name) {
            Option::Some(v) => Option::Some(v),
            Option::None => if objs[cls].typ == cls {
                Option::None
            } else {
                class_chain_lookup(objs, objs[cls].typ as int, name, (fuel - 1) as nat)
            },
        }
    } else {
        Option::None
    }
}

/// The attribute an object presents under `name`: the object's own
/// dictionary first, then its type's dictionary chain.
pub open spec fn spec_attr_lookup(objs: Seq<PyObject>, obj: int, name: Seq<char>) -> Option<
    PyObjectRef,
> {
    if 0 <= obj < objs.len() {
        let own = match objs[obj].kind {
            PyObjectKind::Instance { entries } => entries@,
            PyObjectKind::Class { name: cn, entries } => entries@,
            _ => Seq::empty(),
        };
        match dict_get(own, name) {
            Option::Some(v) => Option::Some(v),
            Option::None => class_chain_lookup(objs, objs[obj].typ as int, name, objs.len()),
        }
    } else {
        Option::None
    }
}

/// An object is falsy exactly when it is the none value, false, integer
/// zero, or an empty container; every other object is truthy.
pub open spec fn falsy(k: PyObjectKind) -> bool {
    match k {
        PyObjectKind::NoneObj => true,
        PyObjectKind::Boolean { value } => !value,
        PyObjectKind::Int { value } => value == 0,
        PyObjectKind::Str { value } => value@.len() == 0,
        PyObjectKind::List { elements } => elements@.len() == 0,
        PyObjectKind::Tuple { elements } => elements@.len() == 0,
        PyObjectKind::Dict { entries } => entries@.len() == 0,
        _ => false,
    }
}

impl Executor {
    /// Boolean coercion: the fixed, type-driven truthiness rule.
    pub fn is_truthy(&self, r: PyObjectRef) -> (b: bool)
        requires
            self.ref_ok(r),
        ensures
            b == !falsy(self.objects@[r as int].kind),
    {
        match &self.objects[r].kind {
            PyObjectKind::NoneObj => false,
            PyObjectKind::Boolean { value } => *value,
            PyObjectKind::Int { value } => *value != 0,
            PyObjectKind::Str { value } => value.as_str().unicode_len() != 0,
            PyObjectKind::List { elements } => elements.len() != 0,
            PyObjectKind::Tuple { elements } => elements.len() != 0,
            PyObjectKind::Dict { entries } => entries.len() != 0,
            _ => true,
        }
    }

    fn chain_lookup(&self, cls: PyObjectRef, name: &String, fuel: usize) -> (r: Option<
        PyObjectRef,
    >)
        requires
            self.wf(),
        ensures
            r == class_chain_lookup(self.objects@, cls as int, name@, fuel as nat),
        decreases fuel,
    {
        if fuel == 0 {
            return Option::None;
        }
        if cls >= self.objects.len() {
            return Option::None;
        }
        let found = match &self.objects[cls].kind {
            PyObjectKind::Class { name: _cn, entries } => dict_find_ref(entries, name, 0),
            _ => Option::None,
        };
        match found {
            Option::Some(v) => Option::Some(v),
            Option::None => {
                let t = self.objects[cls].typ;
                if t == cls {
                    Option::None
                } else {
                    self.chain_lookup(t, name, fuel - 1)
                }
            },
        }
    }

    /// Attribute and method lookup: the object's own dictionary, then its
    /// type's dictionary chain.
    pub fn attr_lookup(&self, obj: PyObjectRef, name: &String) -> (r: Option<PyObjectRef>)
        requires
            self.wf(),
            self.ref_ok(obj),
        ensures
            r == spec_attr_lookup(self.objects@, obj as int, name@),
    {
        let own = match &self.objects[obj].kind {
            PyObjectKind::Instance { entries } => dict_find_ref(entries, name, 0),
            PyObjectKind::Class { name: _cn, entries } => dict_find_ref(entries, name, 0),
            _ => Option::None,
        };
        match own {
            Option::Some(v) => Option::Some(v),
            Option::None => {
                let t = self.objects[obj].typ;
                self.chain_lookup(t, name, self.objects.len())
            },
        }
    }
}

/// Attribute lookup on an instance falls back through its class's
/// dictionary chain: where the instance's own dictionary lacks the name,
/// the result is exactly the chain lookup starting at its class; and where
/// the class's own dictionary holds the name, that binding is the result.
pub proof fn lemma_attr_falls_back(objs: Seq<PyObject>, obj: int, name: Seq<char>)
    requires
        0 <= obj < objs.len(),
        objs[obj].kind matches PyObjectKind::Instance { entries } && dict_get(entries@, name)
            is None,
    ensures
        spec_attr_lookup(objs, obj, name) == class_chain_lookup(
            objs,
            objs[obj].typ as int,
            name,
            objs.len(),
        ),
        (objs.len() > 0 && 0 <= objs[obj].typ < objs.len() && (objs[objs[obj].typ as int].kind
            matches PyObjectKind::Class { name: cn, entries } && dict_get(entries@, name)
            matches Option::Some(v))) ==> spec_attr_lookup(objs, obj, name)
            == dict_get(
            (match objs[objs[obj].typ as int].kind {
                PyObjectKind::Class { name: cn, entries } => entries@,
                _ => Seq::empty(),
            }),
            name,
        ),
{
}


impl Executor {
    /// Builds the process-wide runtime state: the arena seeded with the
    /// root type object (its own type), the interned none and boolean
    /// singletons, the registered integer class, and a built-in namespace
    /// binding `print` to its native function and `int` to the integer
    /// class. The call stack, the module cache, and the output record
    /// start empty.
    pub fn new() -> (r: Executor)
        ensures
            r.wf(),
            r.frames@.len() == 0,
            r.modules@.len() == 0,
            r.output@.len() == 0,
            dict_get(r.entries_of(r.builtins), "print"@) matches Option::Some(p) && r.is_native(
                p,
                NativeFn::Print,
            ),
            dict_get(r.entries_of(r.builtins), "int"@) == Option::Some(r.int_type),
            r.objects@[r.int_type as int].kind matches PyObjectKind::Class { name: cn, entries }
                && cn@ == "int"@ && (dict_get(entries@, "__str__"@) matches Option::Some(f)
                && r.is_native(f, NativeFn::IntStr)),
    {
        let mut ex = Executor {
            objects: Vec::new(),
            none_ref: 0,
            true_ref: 0,
            false_ref: 0,
            type_type: 0,
            int_type: 0,
            builtins: 0,
            modules: Vec::new(),
            frames: Vec::new(),
            output: Vec::new(),
        };
        ex.objects.push(
            PyObject::new(
                PyObjectKind::Class { name: String::from_str("type"), entries: Vec::new() },
                0,
            ),
        );
        ex.objects.push(PyObject::new(PyObjectKind::NoneObj, 0));
        ex.objects.push(PyObject::new(PyObjectKind::Boolean { value: true }, 0));
        ex.objects.push(PyObject::new(PyObjectKind::Boolean { value: false }, 0));
        ex.objects.push(PyObject::new(PyObjectKind::Dict { entries: Vec::new() }, 0));
        ex.none_ref = 1;
        ex.true_ref = 2;
        ex.false_ref = 3;
        ex.builtins = 4;
        proof {
            assert forall|i: int|
                0 <= i < ex.objects@.len() implies obj_ok(
                #[trigger] ex.objects@[i],
                ex.objects@.len() as int,
            ) by {
                assert(ex.objects@[i].typ == 0);
            }
            assert(ex.wf());
        }
        let int_type = crate::objint::create_type(&mut ex, 0);
        ex.int_type = int_type;
        proof {
            assert(ex.wf());
        }
        let print_fn = ex.store(
            PyObject::new(PyObjectKind::NativeFunction { function: NativeFn::Print }, 0),
        );
        let print_name = String::from_str("print");
        let int_name = String::from_str("int");
        let b = ex.builtins;
        ex.dict_put(b, &print_name, print_fn);
        ex.dict_put(b, &int_name, int_type);
        proof {
            reveal_strlit("print");
            reveal_strlit("int");
            assert("print"@.len() == 5);
            assert("int"@.len() == 3);
            assert("print"@ != "int"@);
        }
        ex
    }
}

} // verus!
