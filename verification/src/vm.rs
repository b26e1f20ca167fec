//! The virtual machine: the fetch-decode-execute loop over the call stack
//! of frames, and the dispatch of calls by callee kind.
//!
//! Failures come in two strata that are never conflated: an exception is an
//! ordinary value (a reference into the arena) flowing through the error
//! channel, while a fatal error marks a broken machine invariant such as an
//! out-of-bounds fetch or a stack underflow.

use vstd::prelude::*;

use crate::bytecode::{CodeObject, Constant, ConstV, Instruction};
use crate::frame::{Frame, frame_ok};
use crate::pyobject::{dict_get, Executor, NativeFn, PyObject, PyObjectKind, PyObjectRef};
use vstd::string::StringExecFns;

verus! {

/// How execution fails: an exception value of the running program, or a
/// host-fatal invariant violation.
#[derive(Debug)]
pub enum VmError {
    Exception { value: PyObjectRef },
    Fatal { message: String },
}

/// What one step of the loop did.
#[derive(Debug)]
pub enum StepFlow {
    Continue,
    Finished { value: PyObjectRef },
}

/// What dispatching a call did: produced a value at once, or parked the
/// caller behind a new frame.
#[derive(Debug)]
pub enum CallFlow {
    Returned { value: PyObjectRef },
    FramePushed,
}

/// The most instructions one entry into the machine will execute before it
/// reports a fatal budget error.
pub const STEP_LIMIT: u64 = 1000000;

/// The integer payload of an integer-kind object.
pub open spec fn int_value_of(ex: Executor, r: PyObjectRef) -> int {
    match ex.objects@[r as int].kind {
        PyObjectKind::Int { value } => value as int,
        _ => arbitrary(),
    }
}

/// The code object view a reference carries.
pub open spec fn code_view_of(ex: Executor, r: PyObjectRef) -> crate::bytecode::CodeV {
    match ex.objects@[r as int].kind {
        PyObjectKind::CodeObj { code } => code@,
        _ => arbitrary(),
    }
}

/// How many positional parameters a call to `code` with `args` binds.
pub open spec fn bound_count(code: crate::bytecode::CodeV, args: Seq<PyObjectRef>) -> int {
    let n = if code.arg_count <= code.names.len() {
        code.arg_count as int
    } else {
        code.names.len() as int
    };
    if args.len() <= n {
        args.len() as int
    } else {
        n
    }
}

/// The arena object `r` is a string object reading `text`.
pub open spec fn is_str_obj(ex: Executor, r: PyObjectRef, text: Seq<char>) -> bool {
    &&& ex.ref_ok(r)
    &&& ex.objects@[r as int].kind matches PyObjectKind::Str { value } && value@ == text
}

/// One new frame for `callee` stands on top of the old call stack, with an
/// empty operand stack and the instruction pointer at zero. Its locals are
/// a fresh dictionary with the arguments bound positionally to the code's
/// parameter names, and its globals are the caller's globals (or, with no
/// caller, the fresh namespace itself).
pub open spec fn frames_pushed_one(
    pre: Executor,
    post: Executor,
    callee: PyObjectRef,
    args: Seq<PyObjectRef>,
) -> bool {
    &&& post.frames@.len() == pre.frames@.len() + 1
    &&& post.frames@.subrange(0, pre.frames@.len() as int) == pre.frames@
    &&& post.frames@.last().code_ref == callee
    &&& post.frames@.last().pc == 0
    &&& post.frames@.last().stack@.len() == 0
    &&& post.output == pre.output
    &&& post.frames@.last().globals == (if pre.frames@.len() > 0 {
        pre.frames@.last().globals
    } else {
        post.frames@.last().locals
    })
    &&& post.frames@.last().locals as int >= pre.objects@.len() as int
    &&& post.frames@.last().locals < post.objects@.len()
    &&& post.objects@[post.frames@.last().locals as int].kind is Dict
    &&& ({
        let code = code_view_of(pre, callee);
        let n = bound_count(code, args);
        (forall|i: int, j: int| 0 <= i < j < n ==> code.names[i] != code.names[j]) ==> (forall|
            i: int,
        |
            0 <= i < n ==> dict_get(
                post.entries_of(post.frames@.last().locals),
                code.names[i],
            ) == Option::Some(args[i]))
    })
}

/// A call of a code object seen from the step level: the caller's frame
/// stays, advanced past the call with its operands consumed, and the new
/// frame stands on top with the caller's globals and a fresh namespace
/// binding the call's operands positionally.
pub open spec fn call_steps_into(
    pre: Executor,
    post: Executor,
    callee: PyObjectRef,
    count: int,
) -> bool {
    let pres = top_frame(pre).stack@;
    let caller = post.frames@[pre.frames@.len() - 1];
    &&& post.frames@.len() == pre.frames@.len() + 1
    &&& forall|i: int|
        0 <= i < pre.frames@.len() - 1 ==> #[trigger] post.frames@[i] == pre.frames@[i]
    &&& caller.code_ref == top_frame(pre).code_ref
    &&& caller.locals == top_frame(pre).locals
    &&& caller.globals == top_frame(pre).globals
    &&& caller.pc == top_frame(pre).pc + 1
    &&& caller.stack@ == pres.subrange(0, pres.len() - 1 - count)
    &&& top_frame(post).code_ref == callee
    &&& top_frame(post).pc == 0
    &&& top_frame(post).stack@.len() == 0
    &&& top_frame(post).globals == top_frame(pre).globals
    &&& post.output == pre.output
    &&& arena_extended(pre, post)
    &&& top_frame(post).locals as int >= pre.objects@.len() as int
    &&& post.objects@[top_frame(post).locals as int].kind is Dict
    &&& ({
        let code = code_view_of(pre, callee);
        let args = pres.subrange(pres.len() - count, pres.len() as int);
        let n = bound_count(code, args);
        (forall|a: int, b: int| 0 <= a < b < n ==> code.names[a] != code.names[b]) ==> (forall|
            i: int,
        |
            0 <= i < n ==> dict_get(post.entries_of(top_frame(post).locals), code.names[i])
                == Option::Some(args[i]))
    })
}

/// Three-tier name resolution: the frame's locals first, then its globals,
/// then the built-in namespace. This order is the scoping contract.
pub open spec fn spec_lookup_name(ex: Executor, fr: Frame, name: Seq<char>) -> Option<
    PyObjectRef,
> {
    match dict_get(ex.entries_of(fr.locals), name) {
        Option::Some(v) => Option::Some(v),
        Option::None => match dict_get(ex.entries_of(fr.globals), name) {
            Option::Some(v) => Option::Some(v),
            Option::None => dict_get(ex.entries_of(ex.builtins), name),
        },
    }
}

/// The three-tier scoping order as a law: a name bound in the frame's
/// locals resolves there whatever the other tiers hold; a name missing
/// from locals but bound in its globals resolves there whatever the
/// built-ins hold; and only a name missing from both falls through to the
/// built-in namespace.
pub proof fn lemma_lookup_order(ex: Executor, fr: Frame, name: Seq<char>)
    ensures
        dict_get(ex.entries_of(fr.locals), name) matches Option::Some(v) ==> spec_lookup_name(
            ex,
            fr,
            name,
        ) == Option::Some(v),
        dict_get(ex.entries_of(fr.locals), name) is None ==> (dict_get(
            ex.entries_of(fr.globals),
            name,
        ) matches Option::Some(v) ==> spec_lookup_name(ex, fr, name) == Option::Some(v)),
        (dict_get(ex.entries_of(fr.locals), name) is None && dict_get(
            ex.entries_of(fr.globals),
            name,
        ) is None) ==> spec_lookup_name(ex, fr, name) == dict_get(
            ex.entries_of(ex.builtins),
            name,
        ),
{
}

impl Executor {
    /// Resolves a name as the running frame sees it: locals, then globals,
    /// then built-ins.
    pub fn lookup_name(&self, fi: usize, name: &String) -> (r: Option<PyObjectRef>)
        requires
            self.wf(),
            fi < self.frames@.len(),
        ensures
            r == spec_lookup_name(*self, self.frames@[fi as int], name@),
    {
        proof {
            assert(frame_ok(self.frames@[fi as int], self.objects@));
        }
        let locals = self.frames[fi].locals;
        let globals = self.frames[fi].globals;
        match self.dict_lookup(locals, name) {
            Option::Some(v) => Option::Some(v),
            Option::None => match self.dict_lookup(globals, name) {
                Option::Some(v) => Option::Some(v),
                Option::None => self.dict_lookup(self.builtins, name),
            },
        }
    }

    /// Dispatches a call on the callee's kind: a native function runs at
    /// once against the executor; a code object becomes a new frame on the
    /// call stack with its positional arguments bound; a class constructs
    /// an instance; any other kind fails with a callable-type exception
    /// value, never a fatal error.
    pub fn call_value(&mut self, callee: PyObjectRef, args: Vec<PyObjectRef>) -> (r: Result<
        CallFlow,
        VmError,
    >)
        requires
            old(self).wf(),
            old(self).ref_ok(callee),
            forall|i: int|
                0 <= i < args@.len() ==> (#[trigger] args@[i]) < old(self).objects@.len(),
        ensures
            final(self).wf(),
            final(self).modules == old(self).modules,
            final(self).objects@.len() >= old(self).objects@.len(),
            arena_extended(*old(self), *final(self)),
            old(self).output@.is_prefix_of(final(self).output@),
            (old(self).objects@[callee as int].kind matches PyObjectKind::NativeFunction {
                function,
            } && function == NativeFn::Print) ==> (r matches Result::Ok(CallFlow::Returned {
                value,
            }) && value == old(self).none_ref && final(self).output@ == old(self).output@ + args@
                && final(self).frames == old(self).frames && final(self).objects
                == old(self).objects),
            (old(self).objects@[callee as int].kind matches PyObjectKind::NativeFunction {
                function,
            } && function == NativeFn::IntStr) ==> ((if args@.len() > 0 && old(
                self,
            ).objects@[args@[0] as int].kind is Int {
                r matches Result::Ok(CallFlow::Returned { value }) && is_str_obj(
                    *final(self),
                    value,
                    crate::objint::spec_int_str(int_value_of(*old(self), args@[0])),
                )
            } else {
                r matches Result::Err(VmError::Exception { value }) && is_str_obj(
                    *final(self),
                    value,
                    "argument is not an integer"@,
                )
            }) && final(self).frames == old(self).frames && final(self).output
                == old(self).output),
            (old(self).objects@[callee as int].kind is CodeObj) ==> (r matches Result::Ok(
                CallFlow::FramePushed,
            ) && frames_pushed_one(*old(self), *final(self), callee, args@)),
            (old(self).objects@[callee as int].kind is Class) ==> (r matches Result::Ok(
                CallFlow::Returned { value },
            ) && final(self).ref_ok(value) && final(self).objects@[value as int].kind is Instance
                && final(self).objects@[value as int].typ == callee && final(self).frames
                == old(self).frames && final(self).output == old(self).output),
            (!(old(self).objects@[callee as int].kind is NativeFunction) && !(old(
                self,
            ).objects@[callee as int].kind is CodeObj) && !(old(self).objects@[callee as int].kind
                is Class)) ==> (r matches Result::Err(VmError::Exception { value }) && is_str_obj(
                *final(self),
                value,
                "object is not callable"@,
            ) && final(self).frames == old(self).frames && final(self).output
                == old(self).output),
    {
        let kind_tag: u8 = match &self.objects[callee].kind {
            PyObjectKind::NativeFunction { function } => match function {
                NativeFn::Print => 0,
                NativeFn::IntStr => 1,
            },
            PyObjectKind::CodeObj { code: _c } => 2,
            PyObjectKind::Class { name: _n, entries: _e } => 3,
            _ => 4,
        };
        if kind_tag == 0 {
            let mut a = args;
            self.output.append(&mut a);
            return Result::Ok(CallFlow::Returned { value: self.none_ref });
        }
        if kind_tag == 1 {
            if args.len() > 0 {
                let a0 = args[0];
                let iv: Option<i64> = match &self.objects[a0].kind {
                    PyObjectKind::Int { value } => Option::Some(*value),
                    _ => Option::None,
                };
                if let Option::Some(n) = iv {
                    let v = self.new_str(crate::objint::int_to_string(n));
                    return Result::Ok(CallFlow::Returned { value: v });
                }
            }
            let v = self.new_str(String::from_str("argument is not an integer"));
            return Result::Err(VmError::Exception { value: v });
        }
        if kind_tag == 2 {
            let ghost cv = code_view_of(*old(self), callee);
            let mut argnames: Vec<String> = Vec::new();
            match &self.objects[callee].kind {
                PyObjectKind::CodeObj { code } => {
                    let n = if code.arg_count <= code.names.len() {
                        code.arg_count
                    } else {
                        code.names.len()
                    };
                    let mut i: usize = 0;
                    while i < n
                        invariant
                            n <= code.names@.len(),
                            i <= n,
                            argnames@.len() == i,
                            forall|j: int|
                                0 <= j < i ==> (#[trigger] argnames@[j])@ == code.names@[j]@,
                        decreases n - i,
                    {
                        argnames.push(code.names[i].clone());
                        i = i + 1;
                    }
                    proof {
                        assert(cv.names =~= crate::bytecode::nview(code.names@));
                        assert(argnames@.len() as int == (if cv.arg_count <= cv.names.len() {
                            cv.arg_count as int
                        } else {
                            cv.names.len() as int
                        }));
                        assert(forall|j: int|
                            0 <= j < argnames@.len() ==> (#[trigger] argnames@[j])@
                                == cv.names[j]);
                    }
                },
                _ => {
                    proof {
                        assert(false);
                    }
                },
            }
            let locals = self.new_dict();
            let ghost nb = bound_count(cv, args@);
            let mut i: usize = 0;
            while i < argnames.len() && i < args.len()
                invariant
                    self.wf(),
                    locals < self.objects@.len(),
                    locals as int >= old(self).objects@.len() as int,
                    self.objects@[locals as int].kind is Dict,
                    callee < self.objects@.len(),
                    self.objects@[callee as int] == old(self).objects@[callee as int],
                    self.objects@[callee as int].kind is CodeObj,
                    forall|k: int|
                        0 <= k < args@.len() ==> (#[trigger] args@[k]) < self.objects@.len(),
                    Executor::same_but_objects(*old(self), *self),
                    self.objects@.len() >= old(self).objects@.len(),
                    forall|k: int|
                        0 <= k < old(self).objects@.len() ==> #[trigger] self.objects@[k]
                            == old(self).objects@[k],
                    cv == code_view_of(*old(self), callee),
                    nb == bound_count(cv, args@),
                    i <= argnames@.len(),
                    i <= args@.len(),
                    argnames@.len() as int == (if cv.arg_count <= cv.names.len() {
                        cv.arg_count as int
                    } else {
                        cv.names.len() as int
                    }),
                    forall|j: int|
                        0 <= j < argnames@.len() ==> (#[trigger] argnames@[j])@ == cv.names[j],
                    (forall|a: int, b: int| 0 <= a < b < nb ==> cv.names[a] != cv.names[b])
                        ==> (forall|j: int|
                        0 <= j < i ==> #[trigger] dict_get(
                            self.entries_of(locals),
                            cv.names[j],
                        ) == Option::Some(args@[j])),
                decreases argnames@.len() - i,
            {
                let nm = &argnames[i];
                let v = args[i];
                self.dict_put(locals, nm, v);
                i = i + 1;
            }
            proof {
                assert(self.wf());
                assert(i as int == nb);
                assert((forall|a: int, b: int| 0 <= a < b < nb ==> cv.names[a] != cv.names[b])
                    ==> (forall|j: int|
                    0 <= j < nb ==> #[trigger] dict_get(self.entries_of(locals), cv.names[j])
                        == Option::Some(args@[j])));
            }
            let ghost bound_entries = self.entries_of(locals);
            let nframes = self.frames.len();
            let globals = if nframes > 0 {
                proof {
                    assert(frame_ok(self.frames@[nframes - 1], self.objects@));
                }
                self.frames[nframes - 1].globals
            } else {
                locals
            };
            let fr = Frame { code_ref: callee, pc: 0, stack: Vec::new(), locals, globals };
            proof {
                assert(frame_ok(fr, self.objects@));
            }
            self.frames.push(fr);
            proof {
                assert forall|i2: int| 0 <= i2 < self.frames@.len() implies frame_ok(
                    #[trigger] self.frames@[i2],
                    self.objects@,
                ) by {
                    if i2 < self.frames@.len() - 1 {
                        assert(self.frames@[i2] == old(self).frames@[i2]);
                    }
                }
                assert(self.frames@.subrange(0, old(self).frames@.len() as int) =~= old(
                    self,
                ).frames@);
                assert(self.entries_of(locals) == bound_entries);
            }
            return Result::Ok(CallFlow::FramePushed);
        }
        if kind_tag == 3 {
            let inst = self.store(
                PyObject::new(PyObjectKind::Instance { entries: Vec::new() }, callee),
            );
            return Result::Ok(CallFlow::Returned { value: inst });
        }
        let v = self.new_str(String::from_str("object is not callable"));
        Result::Err(VmError::Exception { value: v })
    }
}



/// The frame on top of the call stack.
pub open spec fn top_frame(ex: Executor) -> Frame {
    ex.frames@.last()
}

/// The instruction the machine will execute next: the one the top frame's
/// program counter names in its code object, if it lies in bounds.
pub open spec fn cur_instr(ex: Executor) -> Option<Instruction> {
    if ex.frames@.len() > 0 && top_frame(ex).code_ref < ex.objects@.len() {
        match ex.objects@[top_frame(ex).code_ref as int].kind {
            PyObjectKind::CodeObj { code } => if top_frame(ex).pc < code@.instructions.len() {
                Option::Some(code@.instructions[top_frame(ex).pc as int])
            } else {
                Option::None
            },
            _ => Option::None,
        }
    } else {
        Option::None
    }
}

/// Nothing outside the call stack changed between two states.
pub open spec fn same_non_frame_state(pre: Executor, post: Executor) -> bool {
    &&& post.objects == pre.objects
    &&& post.output == pre.output
    &&& post.modules == pre.modules
    &&& post.none_ref == pre.none_ref
    &&& post.true_ref == pre.true_ref
    &&& post.false_ref == pre.false_ref
    &&& post.type_type == pre.type_type
    &&& post.int_type == pre.int_type
    &&& post.builtins == pre.builtins
}

/// Only the top frame changed, and its code and namespaces are what they
/// were.
pub open spec fn top_replaced(pre: Executor, post: Executor) -> bool {
    &&& post.frames@.len() == pre.frames@.len()
    &&& forall|i: int| 0 <= i < pre.frames@.len() - 1 ==> post.frames@[i] == pre.frames@[i]
    &&& top_frame(post).code_ref == top_frame(pre).code_ref
    &&& top_frame(post).locals == top_frame(pre).locals
    &&& top_frame(post).globals == top_frame(pre).globals
}


/// The code object the top frame runs.
pub open spec fn top_code(ex: Executor) -> crate::bytecode::CodeV {
    match ex.objects@[top_frame(ex).code_ref as int].kind {
        PyObjectKind::CodeObj { code } => code@,
        _ => arbitrary(),
    }
}

/// The value `v` holds the constant `c`: an integer or string constant
/// reads back as that value, and a boolean or none constant is the
/// interned singleton.
pub open spec fn const_loaded(pre: Executor, post: Executor, v: PyObjectRef, c: ConstV) -> bool {
    &&& v < post.objects@.len()
    &&& match c {
        ConstV::IntV { value } => post.objects@[v as int].kind matches PyObjectKind::Int {
            value: x,
        } && x == value,
        ConstV::StrV { value } => post.objects@[v as int].kind matches PyObjectKind::Str {
            value: x,
        } && x@ == value,
        ConstV::BoolV { value } => v == (if value {
            pre.true_ref
        } else {
            pre.false_ref
        }),
        ConstV::NoneV => v == pre.none_ref,
    }
}

/// The old arena is untouched: every object it held reads back unchanged.
pub open spec fn arena_extended(pre: Executor, post: Executor) -> bool {
    &&& post.objects@.len() >= pre.objects@.len()
    &&& forall|i: int| 0 <= i < pre.objects@.len() ==> post.objects@[i] == pre.objects@[i]
}

proof fn dict_get_from_valid(entries: Seq<(String, PyObjectRef)>, name: Seq<char>, i: int, n: int)
    requires
        forall|j: int| 0 <= j < entries.len() ==> (#[trigger] entries[j]).1 < n,
    ensures
        match crate::pyobject::dict_get_from(entries, name, i) {
            Option::Some(v) => v < n,
            Option::None => true,
        },
    decreases entries.len() - i,
{
    if 0 <= i < entries.len() && entries[i].0@ != name {
        dict_get_from_valid(entries, name, i + 1, n);
    }
}

proof fn lemma_entries_valid(ex: Executor, r: PyObjectRef)
    requires
        crate::pyobject::heap_ok(ex.objects@),
        r < ex.objects@.len(),
    ensures
        forall|j: int|
            0 <= j < ex.entries_of(r).len() ==> (#[trigger] ex.entries_of(r)[j]).1
                < ex.objects@.len(),
{
    assert(crate::pyobject::obj_ok(ex.objects@[r as int], ex.objects@.len() as int));
}

/// A resolved name denotes an object of the arena.
pub proof fn lemma_lookup_valid(ex: Executor, fr: Frame, name: Seq<char>)
    requires
        ex.wf(),
        frame_ok(fr, ex.objects@),
    ensures
        match spec_lookup_name(ex, fr, name) {
            Option::Some(v) => v < ex.objects@.len(),
            Option::None => true,
        },
{
    lemma_entries_valid(ex, fr.locals);
    lemma_entries_valid(ex, fr.globals);
    lemma_entries_valid(ex, ex.builtins);
    dict_get_from_valid(ex.entries_of(fr.locals), name, 0, ex.objects@.len() as int);
    dict_get_from_valid(ex.entries_of(fr.globals), name, 0, ex.objects@.len() as int);
    dict_get_from_valid(ex.entries_of(ex.builtins), name, 0, ex.objects@.len() as int);
}

/// One execution step of the machine as a relation between the state
/// before, the state after, and what the step reported: the per-opcode
/// semantics of the fetch-decode-execute loop.
pub open spec fn step_rel(pre: Executor, post: Executor, r: Result<StepFlow, VmError>) -> bool {
    &&& (post.objects@.len() >= pre.objects@.len())
    &&& (post.modules == pre.modules)
    &&& (pre.output@.is_prefix_of(post.output@))
    &&& (r matches Result::Ok(StepFlow::Finished { value }) ==> post.ref_ok(value)
                && post.frames@.len() == 0)
    &&& (cur_instr(pre) is None ==> (r matches Result::Err(e) && e is Fatal))
    &&& (cur_instr(pre) matches Option::Some(Instruction::PopTop) ==> (if top_frame(
                pre,
            ).stack@.len() == 0 {
                r matches Result::Err(e) && e is Fatal
            } else {
                r matches Result::Ok(StepFlow::Continue) && same_non_frame_state(
                    pre,
                    post,
                ) && top_replaced(pre, post) && top_frame(post).pc
                    == top_frame(pre).pc + 1 && top_frame(post).stack@ == top_frame(
                    pre,
                ).stack@.drop_last()
            }))
    &&& (cur_instr(pre) matches Option::Some(Instruction::JumpAbsolute { target })
                ==> (r matches Result::Ok(StepFlow::Continue) && same_non_frame_state(
                pre,
                post,
            ) && top_replaced(pre, post) && top_frame(post).pc == target
                && top_frame(post).stack@ == top_frame(pre).stack@))
    &&& (cur_instr(pre) matches Option::Some(Instruction::JumpIfFalse { target })
                ==> (if top_frame(pre).stack@.len() == 0 {
                r matches Result::Err(e) && e is Fatal
            } else {
                r matches Result::Ok(StepFlow::Continue) && same_non_frame_state(
                    pre,
                    post,
                ) && top_replaced(pre, post) && top_frame(post).stack@
                    == top_frame(pre).stack@.drop_last() && top_frame(post).pc == (
                if crate::pyobject::falsy(
                    pre.objects@[top_frame(pre).stack@.last() as int].kind,
                ) {
                    target as nat
                } else {
                    (top_frame(pre).pc + 1) as nat
                })
            }))
    &&& (cur_instr(pre) matches Option::Some(Instruction::LoadConst { idx })
                ==> (if idx >= top_code(pre).constants.len() {
                r matches Result::Err(e) && e is Fatal
            } else {
                r matches Result::Ok(StepFlow::Continue) && arena_extended(
                    pre,
                    post,
                ) && post.output == pre.output && post.modules
                    == pre.modules && top_replaced(pre, post) && top_frame(
                    post,
                ).pc == top_frame(pre).pc + 1 && top_frame(post).stack@
                    == top_frame(pre).stack@.push(top_frame(post).stack@.last())
                    && const_loaded(
                    pre,
                    post,
                    top_frame(post).stack@.last(),
                    top_code(pre).constants[idx as int],
                )
            }))
    &&& (cur_instr(pre) matches Option::Some(Instruction::LoadName { idx })
                ==> (if idx >= top_code(pre).names.len() {
                r matches Result::Err(e) && e is Fatal
            } else {
                match spec_lookup_name(
                    pre,
                    top_frame(pre),
                    top_code(pre).names[idx as int],
                ) {
                    Option::Some(v) => r matches Result::Ok(StepFlow::Continue)
                        && same_non_frame_state(pre, post) && top_replaced(
                        pre,
                        post,
                    ) && top_frame(post).pc == top_frame(pre).pc + 1 && top_frame(
                        post,
                    ).stack@ == top_frame(pre).stack@.push(v),
                    Option::None => r matches Result::Err(VmError::Exception { value })
                        && is_str_obj(post, value, "name is not defined"@),
                }
            }))
    &&& (cur_instr(pre) matches Option::Some(Instruction::StoreName { idx })
                ==> (if idx >= top_code(pre).names.len() || top_frame(
                pre,
            ).stack@.len() == 0 {
                r matches Result::Err(e) && e is Fatal
            } else {
                r matches Result::Ok(StepFlow::Continue) && post.output
                    == pre.output && post.objects@.len()
                    == pre.objects@.len() && top_replaced(pre, post)
                    && top_frame(post).pc == top_frame(pre).pc + 1 && top_frame(
                    post,
                ).stack@ == top_frame(pre).stack@.drop_last() && dict_get(
                    post.entries_of(top_frame(pre).locals),
                    top_code(pre).names[idx as int],
                ) == Option::Some(top_frame(pre).stack@.last()) && (forall|n: Seq<char>|
                    n != top_code(pre).names[idx as int]
                        ==> #[trigger] dict_get(
                        post.entries_of(top_frame(pre).locals),
                        n,
                    ) == dict_get(pre.entries_of(top_frame(pre).locals), n))
            }))
    &&& (cur_instr(pre) matches Option::Some(Instruction::ReturnValue) ==> (if top_frame(
                pre,
            ).stack@.len() == 0 {
                r matches Result::Err(e) && e is Fatal
            } else {
                same_non_frame_state(pre, post) && post.frames@.len()
                    == pre.frames@.len() - 1 && (if pre.frames@.len() == 1 {
                    r matches Result::Ok(StepFlow::Finished { value }) && value == top_frame(
                        pre,
                    ).stack@.last()
                } else {
                    r matches Result::Ok(StepFlow::Continue) && (forall|i: int|
                        0 <= i < pre.frames@.len() - 2
                            ==> #[trigger] post.frames@[i] == pre.frames@[i])
                        && top_frame(post).code_ref
                        == pre.frames@[pre.frames@.len() - 2].code_ref && top_frame(
                        post,
                    ).pc == pre.frames@[pre.frames@.len() - 2].pc && top_frame(
                        post,
                    ).stack@ == pre.frames@[pre.frames@.len() - 2].stack@.push(
                        top_frame(pre).stack@.last(),
                    )
                })
            }))
    &&& (cur_instr(pre) matches Option::Some(Instruction::CallFunction { count })
                ==> (if top_frame(pre).stack@.len() <= count {
                r matches Result::Err(e) && e is Fatal
            } else {
                let pres = top_frame(pre).stack@;
                let callee = pres[pres.len() - 1 - count];
                &&& ((pre.objects@[callee as int].kind matches
                PyObjectKind::NativeFunction { function } && function == NativeFn::Print) ==> (
                r matches Result::Ok(StepFlow::Continue) && post.objects
                    == pre.objects && post.output@ == pre.output@
                    + pres.subrange(pres.len() - count, pres.len() as int) && top_replaced(
                    pre,
                    post,
                ) && top_frame(post).pc == top_frame(pre).pc + 1 && top_frame(
                    post,
                ).stack@ == pres.subrange(0, pres.len() - 1 - count).push(pre.none_ref)))
                &&& ((pre.objects@[callee as int].kind matches
                PyObjectKind::NativeFunction { function } && function == NativeFn::IntStr) ==> (
                if count > 0 && pre.objects@[pres[pres.len() - count] as int].kind
                    is Int {
                    r matches Result::Ok(StepFlow::Continue) && arena_extended(
                        pre,
                        post,
                    ) && post.output == pre.output && top_replaced(
                        pre,
                        post,
                    ) && top_frame(post).pc == top_frame(pre).pc + 1 && top_frame(
                        post,
                    ).stack@ == pres.subrange(0, pres.len() - 1 - count).push(
                        top_frame(post).stack@.last(),
                    ) && is_str_obj(
                        post,
                        top_frame(post).stack@.last(),
                        crate::objint::spec_int_str(
                            int_value_of(pre, pres[pres.len() - count]),
                        ),
                    )
                } else {
                    r matches Result::Err(VmError::Exception { value }) && is_str_obj(
                        post,
                        value,
                        "argument is not an integer"@,
                    )
                }))
                &&& ((pre.objects@[callee as int].kind is Class) ==> (r matches Result::Ok(
                    StepFlow::Continue,
                ) && arena_extended(pre, post) && post.output
                    == pre.output && top_replaced(pre, post) && top_frame(
                    post,
                ).pc == top_frame(pre).pc + 1 && top_frame(post).stack@
                    == pres.subrange(0, pres.len() - 1 - count).push(
                    top_frame(post).stack@.last(),
                ) && post.objects@[top_frame(post).stack@.last() as int].kind
                    is Instance && post.objects@[top_frame(
                    post,
                ).stack@.last() as int].typ == callee))
                &&& ((pre.objects@[callee as int].kind is CodeObj) ==> (r matches
                Result::Ok(StepFlow::Continue) && call_steps_into(
                    pre,
                    post,
                    callee,
                    count as int,
                )))
                &&& ((!(pre.objects@[callee as int].kind is NativeFunction) && !(pre.objects@[callee as int].kind is CodeObj) && !(pre.objects@[callee as int].kind is Class)) ==> (r matches Result::Err(
                    VmError::Exception { value },
                ) && is_str_obj(post, value, "object is not callable"@)))
            }))
    &&& (r matches Result::Ok(StepFlow::Continue) ==> post.frames@.len() > 0)
}

/// Repeated steps of the machine as a relation: within `fuel` steps the
/// run either finishes with a value, stops on an error, or exhausts the
/// budget with a fatal report. This is the execution contract of the
/// machine's entry points.
pub open spec fn drive_rel(
    pre: Executor,
    post: Executor,
    r: Result<PyObjectRef, VmError>,
    fuel: nat,
) -> bool
    decreases fuel,
{
    if fuel == 0 {
        &&& post == pre
        &&& r matches Result::Err(e) && e is Fatal
    } else {
        exists|mid: Executor, s: Result<StepFlow, VmError>|
            #[trigger] step_rel(pre, mid, s) && match s {
                Result::Ok(StepFlow::Continue) => drive_rel(mid, post, r, (fuel - 1) as nat),
                Result::Ok(StepFlow::Finished { value }) => post == mid && r == Result::<PyObjectRef, VmError>::Ok(value),
                Result::Err(e) => post == mid && r == Result::<PyObjectRef, VmError>::Err(e),
            }
    }
}

/// The machine state a fresh entry builds from `pre` for `code`: the code
/// object and an empty namespace dictionary appended to the arena, and one
/// root frame over them, whose locals and globals are that namespace.
pub open spec fn entry_state(pre: Executor, code: CodeObject, post: Executor) -> bool {
    &&& post.objects@.len() == pre.objects@.len() + 2
    &&& forall|i: int| 0 <= i < pre.objects@.len() ==> post.objects@[i] == pre.objects@[i]
    &&& post.objects@[pre.objects@.len() as int].kind matches PyObjectKind::CodeObj { code: c }
        && c == code
    &&& post.objects@[pre.objects@.len() as int + 1].kind matches PyObjectKind::Dict { entries }
        && entries@.len() == 0
    &&& post.frames@.len() == 1
    &&& top_frame(post).code_ref as int == pre.objects@.len() as int
    &&& top_frame(post).pc == 0
    &&& top_frame(post).stack@.len() == 0
    &&& top_frame(post).locals as int == pre.objects@.len() as int + 1
    &&& top_frame(post).globals == top_frame(post).locals
    &&& post.output == pre.output
    &&& post.modules == pre.modules
    &&& post.none_ref == pre.none_ref
    &&& post.true_ref == pre.true_ref
    &&& post.false_ref == pre.false_ref
    &&& post.type_type == pre.type_type
    &&& post.int_type == pre.int_type
    &&& post.builtins == pre.builtins
}

proof fn lemma_drive_rel_step(
    pre: Executor,
    mid: Executor,
    post: Executor,
    s: Result<StepFlow, VmError>,
    r: Result<PyObjectRef, VmError>,
    fuel: nat,
)
    requires
        fuel > 0,
        step_rel(pre, mid, s),
        match s {
            Result::Ok(StepFlow::Continue) => drive_rel(mid, post, r, (fuel - 1) as nat),
            Result::Ok(StepFlow::Finished { value }) => post == mid && r == Result::<PyObjectRef, VmError>::Ok(value),
            Result::Err(e) => post == mid && r == Result::<PyObjectRef, VmError>::Err(e),
        },
    ensures
        drive_rel(pre, post, r, fuel),
{
    assert(step_rel(pre, mid, s));
}

proof fn frames_update_ok(frames: Seq<Frame>, objs: Seq<PyObject>, i: int, f2: Frame)
    requires
        forall|j: int| 0 <= j < frames.len() ==> frame_ok(#[trigger] frames[j], objs),
        0 <= i < frames.len(),
        frame_ok(f2, objs),
    ensures
        forall|j: int|
            0 <= j < frames.update(i, f2).len() ==> frame_ok(
                #[trigger] frames.update(i, f2)[j],
                objs,
            ),
{
    let u = frames.update(i, f2);
    assert forall|j: int| 0 <= j < u.len() implies frame_ok(#[trigger] u[j], objs) by {
        if j == i {
            assert(u[j] == f2);
        } else {
            assert(u[j] == frames[j]);
        }
    }
}

impl Executor {
    /// Executes the instruction the top frame's program counter names:
    /// fetch, advance, dispatch. An exception value unwinds through the
    /// error channel; a jump or index outside the machine's bounds, or an
    /// operand-stack underflow, is a fatal error.
    #[verifier::rlimit(100)]
    #[verifier::spinoff_prover]
    pub fn step(&mut self) -> (r: Result<StepFlow, VmError>)
        requires
            old(self).wf(),
            old(self).frames@.len() > 0,
        ensures
            final(self).wf(),
            step_rel(*old(self), *final(self), r),
            final(self).objects@.len() >= old(self).objects@.len(),
            final(self).modules == old(self).modules,
            old(self).output@.is_prefix_of(final(self).output@),
            r matches Result::Ok(StepFlow::Finished { value }) ==> final(self).ref_ok(value)
                && final(self).frames@.len() == 0,
            cur_instr(*old(self)) is None ==> (r matches Result::Err(e) && e is Fatal),
            cur_instr(*old(self)) matches Option::Some(Instruction::PopTop) ==> (if top_frame(
                *old(self),
            ).stack@.len() == 0 {
                r matches Result::Err(e) && e is Fatal
            } else {
                r matches Result::Ok(StepFlow::Continue) && same_non_frame_state(
                    *old(self),
                    *final(self),
                ) && top_replaced(*old(self), *final(self)) && top_frame(*final(self)).pc
                    == top_frame(*old(self)).pc + 1 && top_frame(*final(self)).stack@ == top_frame(
                    *old(self),
                ).stack@.drop_last()
            }),
            cur_instr(*old(self)) matches Option::Some(Instruction::JumpAbsolute { target })
                ==> (r matches Result::Ok(StepFlow::Continue) && same_non_frame_state(
                *old(self),
                *final(self),
            ) && top_replaced(*old(self), *final(self)) && top_frame(*final(self)).pc == target
                && top_frame(*final(self)).stack@ == top_frame(*old(self)).stack@),
            cur_instr(*old(self)) matches Option::Some(Instruction::JumpIfFalse { target })
                ==> (if top_frame(*old(self)).stack@.len() == 0 {
                r matches Result::Err(e) && e is Fatal
            } else {
                r matches Result::Ok(StepFlow::Continue) && same_non_frame_state(
                    *old(self),
                    *final(self),
                ) && top_replaced(*old(self), *final(self)) && top_frame(*final(self)).stack@
                    == top_frame(*old(self)).stack@.drop_last() && top_frame(*final(self)).pc == (
                if crate::pyobject::falsy(
                    old(self).objects@[top_frame(*old(self)).stack@.last() as int].kind,
                ) {
                    target as nat
                } else {
                    (top_frame(*old(self)).pc + 1) as nat
                })
            }),
            cur_instr(*old(self)) matches Option::Some(Instruction::LoadConst { idx })
                ==> (if idx >= top_code(*old(self)).constants.len() {
                r matches Result::Err(e) && e is Fatal
            } else {
                r matches Result::Ok(StepFlow::Continue) && arena_extended(
                    *old(self),
                    *final(self),
                ) && final(self).output == old(self).output && final(self).modules
                    == old(self).modules && top_replaced(*old(self), *final(self)) && top_frame(
                    *final(self),
                ).pc == top_frame(*old(self)).pc + 1 && top_frame(*final(self)).stack@
                    == top_frame(*old(self)).stack@.push(top_frame(*final(self)).stack@.last())
                    && const_loaded(
                    *old(self),
                    *final(self),
                    top_frame(*final(self)).stack@.last(),
                    top_code(*old(self)).constants[idx as int],
                )
            }),
            cur_instr(*old(self)) matches Option::Some(Instruction::LoadName { idx })
                ==> (if idx >= top_code(*old(self)).names.len() {
                r matches Result::Err(e) && e is Fatal
            } else {
                match spec_lookup_name(
                    *old(self),
                    top_frame(*old(self)),
                    top_code(*old(self)).names[idx as int],
                ) {
                    Option::Some(v) => r matches Result::Ok(StepFlow::Continue)
                        && same_non_frame_state(*old(self), *final(self)) && top_replaced(
                        *old(self),
                        *final(self),
                    ) && top_frame(*final(self)).pc == top_frame(*old(self)).pc + 1 && top_frame(
                        *final(self),
                    ).stack@ == top_frame(*old(self)).stack@.push(v),
                    Option::None => r matches Result::Err(VmError::Exception { value })
                        && is_str_obj(*final(self), value, "name is not defined"@),
                }
            }),
            cur_instr(*old(self)) matches Option::Some(Instruction::StoreName { idx })
                ==> (if idx >= top_code(*old(self)).names.len() || top_frame(
                *old(self),
            ).stack@.len() == 0 {
                r matches Result::Err(e) && e is Fatal
            } else {
                r matches Result::Ok(StepFlow::Continue) && final(self).output
                    == old(self).output && final(self).objects@.len()
                    == old(self).objects@.len() && top_replaced(*old(self), *final(self))
                    && top_frame(*final(self)).pc == top_frame(*old(self)).pc + 1 && top_frame(
                    *final(self),
                ).stack@ == top_frame(*old(self)).stack@.drop_last() && dict_get(
                    final(self).entries_of(top_frame(*old(self)).locals),
                    top_code(*old(self)).names[idx as int],
                ) == Option::Some(top_frame(*old(self)).stack@.last()) && (forall|n: Seq<char>|
                    n != top_code(*old(self)).names[idx as int]
                        ==> #[trigger] dict_get(
                        final(self).entries_of(top_frame(*old(self)).locals),
                        n,
                    ) == dict_get(old(self).entries_of(top_frame(*old(self)).locals), n))
            }),
            cur_instr(*old(self)) matches Option::Some(Instruction::ReturnValue) ==> (if top_frame(
                *old(self),
            ).stack@.len() == 0 {
                r matches Result::Err(e) && e is Fatal
            } else {
                same_non_frame_state(*old(self), *final(self)) && final(self).frames@.len()
                    == old(self).frames@.len() - 1 && (if old(self).frames@.len() == 1 {
                    r matches Result::Ok(StepFlow::Finished { value }) && value == top_frame(
                        *old(self),
                    ).stack@.last()
                } else {
                    r matches Result::Ok(StepFlow::Continue) && (forall|i: int|
                        0 <= i < old(self).frames@.len() - 2
                            ==> #[trigger] final(self).frames@[i] == old(self).frames@[i])
                        && top_frame(*final(self)).code_ref
                        == old(self).frames@[old(self).frames@.len() - 2].code_ref && top_frame(
                        *final(self),
                    ).pc == old(self).frames@[old(self).frames@.len() - 2].pc && top_frame(
                        *final(self),
                    ).stack@ == old(self).frames@[old(self).frames@.len() - 2].stack@.push(
                        top_frame(*old(self)).stack@.last(),
                    )
                })
            }),
            cur_instr(*old(self)) matches Option::Some(Instruction::CallFunction { count })
                ==> (if top_frame(*old(self)).stack@.len() <= count {
                r matches Result::Err(e) && e is Fatal
            } else {
                let pres = top_frame(*old(self)).stack@;
                let callee = pres[pres.len() - 1 - count];
                &&& ((old(self).objects@[callee as int].kind matches
                PyObjectKind::NativeFunction { function } && function == NativeFn::Print) ==> (
                r matches Result::Ok(StepFlow::Continue) && final(self).objects
                    == old(self).objects && final(self).output@ == old(self).output@
                    + pres.subrange(pres.len() - count, pres.len() as int) && top_replaced(
                    *old(self),
                    *final(self),
                ) && top_frame(*final(self)).pc == top_frame(*old(self)).pc + 1 && top_frame(
                    *final(self),
                ).stack@ == pres.subrange(0, pres.len() - 1 - count).push(old(self).none_ref)))
                &&& ((old(self).objects@[callee as int].kind matches
                PyObjectKind::NativeFunction { function } && function == NativeFn::IntStr) ==> (
                if count > 0 && old(self).objects@[pres[pres.len() - count] as int].kind
                    is Int {
                    r matches Result::Ok(StepFlow::Continue) && arena_extended(
                        *old(self),
                        *final(self),
                    ) && final(self).output == old(self).output && top_replaced(
                        *old(self),
                        *final(self),
                    ) && top_frame(*final(self)).pc == top_frame(*old(self)).pc + 1 && top_frame(
                        *final(self),
                    ).stack@ == pres.subrange(0, pres.len() - 1 - count).push(
                        top_frame(*final(self)).stack@.last(),
                    ) && is_str_obj(
                        *final(self),
                        top_frame(*final(self)).stack@.last(),
                        crate::objint::spec_int_str(
                            int_value_of(*old(self), pres[pres.len() - count]),
                        ),
                    )
                } else {
                    r matches Result::Err(VmError::Exception { value }) && is_str_obj(
                        *final(self),
                        value,
                        "argument is not an integer"@,
                    )
                }))
                &&& ((old(self).objects@[callee as int].kind is Class) ==> (r matches Result::Ok(
                    StepFlow::Continue,
                ) && arena_extended(*old(self), *final(self)) && final(self).output
                    == old(self).output && top_replaced(*old(self), *final(self)) && top_frame(
                    *final(self),
                ).pc == top_frame(*old(self)).pc + 1 && top_frame(*final(self)).stack@
                    == pres.subrange(0, pres.len() - 1 - count).push(
                    top_frame(*final(self)).stack@.last(),
                ) && final(self).objects@[top_frame(*final(self)).stack@.last() as int].kind
                    is Instance && final(self).objects@[top_frame(
                    *final(self),
                ).stack@.last() as int].typ == callee))
                &&& ((old(self).objects@[callee as int].kind is CodeObj) ==> (r matches
                Result::Ok(StepFlow::Continue) && call_steps_into(
                    *old(self),
                    *final(self),
                    callee,
                    count as int,
                )))
                &&& ((!(old(self).objects@[callee as int].kind is NativeFunction) && !(old(
                    self,
                ).objects@[callee as int].kind is CodeObj) && !(old(
                    self,
                ).objects@[callee as int].kind is Class)) ==> (r matches Result::Err(
                    VmError::Exception { value },
                ) && is_str_obj(*final(self), value, "object is not callable"@)))
            }),

            r matches Result::Ok(StepFlow::Continue) ==> final(self).frames@.len() > 0,
    {
        let fi = self.frames.len() - 1;
        proof {
            assert(frame_ok(self.frames@[fi as int], self.objects@));
        }
        let code_ref = self.frames[fi].code_ref;
        let pc = self.frames[fi].pc;
        let instr_opt: Option<Instruction> = match &self.objects[code_ref].kind {
            PyObjectKind::CodeObj { code } => if pc < code.instructions.len() {
                Option::Some(code.instructions[pc])
            } else {
                Option::None
            },
            _ => Option::None,
        };
        let instr = match instr_opt {
            Option::Some(x) => x,
            Option::None => {
                return Result::Err(
                    VmError::Fatal {
                        message: String::from_str("instruction fetch outside code bounds"),
                    },
                );
            },
        };
        match instr {
            Instruction::LoadConst { idx } => {
                let tmp: Option<Constant> = match &self.objects[code_ref].kind {
                    PyObjectKind::CodeObj { code } => if idx < code.constants.len() {
                        Option::Some(
                            match &code.constants[idx] {
                                Constant::IntC { value } => Constant::IntC { value: *value },
                                Constant::StrC { value } => Constant::StrC {
                                    value: value.clone(),
                                },
                                Constant::BoolC { value } => Constant::BoolC { value: *value },
                                Constant::NoneC => Constant::NoneC,
                            },
                        )
                    } else {
                        Option::None
                    },
                    _ => Option::None,
                };
                let c = match tmp {
                    Option::Some(c) => c,
                    Option::None => {
                        return Result::Err(
                            VmError::Fatal {
                                message: String::from_str("constant index outside pool bounds"),
                            },
                        );
                    },
                };
                let v = match c {
                    Constant::IntC { value } => self.new_int(value),
                    Constant::StrC { value } => self.new_str(value),
                    Constant::BoolC { value } => self.new_bool(value),
                    Constant::NoneC => self.new_none(),
                };
                let ghost mid = *self;
                let fr = &mut self.frames[fi];
                fr.pc = pc + 1;
                fr.stack.push(v);
                proof {
                    assert(frame_ok(mid.frames@[fi as int], mid.objects@));
                    frames_update_ok(
                        mid.frames@,
                        self.objects@,
                        fi as int,
                        self.frames@[fi as int],
                    );
                }
                Result::Ok(StepFlow::Continue)
            },
            Instruction::LoadName { idx } => {
                let name_opt: Option<String> = match &self.objects[code_ref].kind {
                    PyObjectKind::CodeObj { code } => if idx < code.names.len() {
                        Option::Some(code.names[idx].clone())
                    } else {
                        Option::None
                    },
                    _ => Option::None,
                };
                let name = match name_opt {
                    Option::Some(n) => n,
                    Option::None => {
                        return Result::Err(
                            VmError::Fatal {
                                message: String::from_str("name index outside table bounds"),
                            },
                        );
                    },
                };
                match self.lookup_name(fi, &name) {
                    Option::Some(v) => {
                        let ghost mid = *self;
                        proof {
                            lemma_lookup_valid(mid, mid.frames@[fi as int], name@);
                        }
                        let fr = &mut self.frames[fi];
                        fr.pc = pc + 1;
                        fr.stack.push(v);
                        proof {
                            assert(frame_ok(mid.frames@[fi as int], mid.objects@));
                            frames_update_ok(
                                mid.frames@,
                                self.objects@,
                                fi as int,
                                self.frames@[fi as int],
                            );
                        }
                        Result::Ok(StepFlow::Continue)
                    },
                    Option::None => {
                        let v = self.new_str(String::from_str("name is not defined"));
                        Result::Err(VmError::Exception { value: v })
                    },
                }
            },
            Instruction::StoreName { idx } => {
                let name_opt: Option<String> = match &self.objects[code_ref].kind {
                    PyObjectKind::CodeObj { code } => if idx < code.names.len() {
                        Option::Some(code.names[idx].clone())
                    } else {
                        Option::None
                    },
                    _ => Option::None,
                };
                let name = match name_opt {
                    Option::Some(n) => n,
                    Option::None => {
                        return Result::Err(
                            VmError::Fatal {
                                message: String::from_str("name index outside table bounds"),
                            },
                        );
                    },
                };
                let ghost mid = *self;
                let popped: Option<PyObjectRef>;
                {
                    let fr = &mut self.frames[fi];
                    fr.pc = pc + 1;
                    popped = fr.stack.pop();
                }
                let v = match popped {
                    Option::Some(v) => v,
                    Option::None => {
                        proof {
                            assert(frame_ok(mid.frames@[fi as int], mid.objects@));
                            frames_update_ok(
                                mid.frames@,
                                self.objects@,
                                fi as int,
                                self.frames@[fi as int],
                            );
                        }
                        return Result::Err(
                            VmError::Fatal { message: String::from_str("operand stack underflow") },
                        );
                    },
                };
                let locals = self.frames[fi].locals;
                proof {
                    assert(frame_ok(mid.frames@[fi as int], mid.objects@));
                    assert(mid.frames@[fi as int].stack@.last() == v);
                    frames_update_ok(mid.frames@, self.objects@, fi as int, self.frames@[fi as int]);
                    assert(self.wf());
                }
                self.dict_put(locals, &name, v);
                Result::Ok(StepFlow::Continue)
            },
            Instruction::JumpAbsolute { target } => {
                let ghost mid = *self;
                let fr = &mut self.frames[fi];
                fr.pc = target;
                proof {
                    assert(frame_ok(mid.frames@[fi as int], mid.objects@));
                    frames_update_ok(mid.frames@, self.objects@, fi as int, self.frames@[fi as int]);
                }
                Result::Ok(StepFlow::Continue)
            },
            Instruction::JumpIfFalse { target } => {
                let ghost mid = *self;
                let popped: Option<PyObjectRef>;
                {
                    let fr = &mut self.frames[fi];
                    fr.pc = pc + 1;
                    popped = fr.stack.pop();
                }
                proof {
                    assert(frame_ok(mid.frames@[fi as int], mid.objects@));
                    frames_update_ok(mid.frames@, self.objects@, fi as int, self.frames@[fi as int]);
                }
                let v = match popped {
                    Option::Some(v) => v,
                    Option::None => {
                        return Result::Err(
                            VmError::Fatal { message: String::from_str("operand stack underflow") },
                        );
                    },
                };
                proof {
                    assert(mid.frames@[fi as int].stack@.last() == v);
                }
                let t = self.is_truthy(v);
                if !t {
                    let ghost mid2 = *self;
                    let fr = &mut self.frames[fi];
                    fr.pc = target;
                    proof {
                        assert(frame_ok(mid2.frames@[fi as int], mid2.objects@));
                        frames_update_ok(
                            mid2.frames@,
                            self.objects@,
                            fi as int,
                            self.frames@[fi as int],
                        );
                    }
                }
                Result::Ok(StepFlow::Continue)
            },
            Instruction::PopTop => {
                let ghost mid = *self;
                let popped: Option<PyObjectRef>;
                {
                    let fr = &mut self.frames[fi];
                    fr.pc = pc + 1;
                    popped = fr.stack.pop();
                }
                proof {
                    assert(frame_ok(mid.frames@[fi as int], mid.objects@));
                    frames_update_ok(mid.frames@, self.objects@, fi as int, self.frames@[fi as int]);
                }
                match popped {
                    Option::Some(_v) => Result::Ok(StepFlow::Continue),
                    Option::None => Result::Err(
                        VmError::Fatal { message: String::from_str("operand stack underflow") },
                    ),
                }
            },
            Instruction::CallFunction { count } => {
                let slen = self.frames[fi].stack.len();
                if slen <= count {
                    return Result::Err(
                        VmError::Fatal { message: String::from_str("operand stack underflow") },
                    );
                }
                let base = slen - count;
                let callee = self.frames[fi].stack[base - 1];
                let mut args: Vec<PyObjectRef> = Vec::new();
                let mut q: usize = 0;
                proof {
                    assert(frame_ok(self.frames@[fi as int], self.objects@));
                }
                while q < count
                    invariant
                        q <= count,
                        base + count == self.frames@[fi as int].stack@.len(),
                        base + count <= usize::MAX,
                        fi < self.frames@.len(),
                        base >= 1,
                        frame_ok(self.frames@[fi as int], self.objects@),
                        args@.len() == q,
                        forall|p: int|
                            0 <= p < args@.len() ==> (#[trigger] args@[p]) == self.frames@[
                                fi as int
                            ].stack@[base + p],
                        forall|p: int|
                            0 <= p < args@.len() ==> (#[trigger] args@[p])
                                < self.objects@.len(),
                    decreases count - q,
                {
                    let a = self.frames[fi].stack[base + q];
                    args.push(a);
                    q = q + 1;
                }
                let ghost mid = *self;
                {
                    let fr = &mut self.frames[fi];
                    fr.pc = pc + 1;
                    fr.stack.truncate(base - 1);
                }
                proof {
                    assert(frame_ok(mid.frames@[fi as int], mid.objects@));
                    assert forall|p: int|
                        0 <= p < self.frames@[fi as int].stack@.len() implies (
                    #[trigger] self.frames@[fi as int].stack@[p]) < self.objects@.len() by {
                        assert(self.frames@[fi as int].stack@[p] == mid.frames@[
                            fi as int
                        ].stack@[p]);
                    }
                    frames_update_ok(mid.frames@, self.objects@, fi as int, self.frames@[fi as int]);
                    assert(self.wf());
                    assert(callee < self.objects@.len());
                    assert(args@ =~= mid.frames@[fi as int].stack@.subrange(
                        base as int,
                        mid.frames@[fi as int].stack@.len() as int,
                    ));
                    assert(self.frames@[fi as int].stack@ =~= mid.frames@[
                        fi as int
                    ].stack@.subrange(0, base - 1));
                }
                let ghost callmid = *self;
                match self.call_value(callee, args) {
                    Result::Ok(CallFlow::Returned { value }) => {
                        let ghost mid2 = *self;
                        let fi2 = self.frames.len() - 1;
                        proof {
                            assert(frame_ok(mid2.frames@[fi2 as int], mid2.objects@));
                        }
                        let fr = &mut self.frames[fi2];
                        fr.stack.push(value);
                        proof {
                            frames_update_ok(
                                mid2.frames@,
                                self.objects@,
                                fi2 as int,
                                self.frames@[fi2 as int],
                            );
                            assert(self.frames@[fi2 as int].stack@ =~= mid2.frames@[
                                fi2 as int
                            ].stack@.push(value));
                            assert(callmid.objects == mid.objects);
                            assert forall|i2: int|
                                0 <= i2 < mid.objects@.len() implies #[trigger] self.objects@[i2]
                                == mid.objects@[i2] by {
                                assert(mid2.objects@[i2] == callmid.objects@[i2]);
                            }
                            assert(arena_extended(mid, *self));
                            if !(callmid.objects@[callee as int].kind is CodeObj) {
                                assert(mid2.frames == callmid.frames);
                                assert(fi2 == fi);
                                assert forall|i2: int|
                                    0 <= i2 < mid.frames@.len() - 1 implies #[trigger] self.frames@[i2]
                                    == mid.frames@[i2] by {
                                    assert(self.frames@[i2] == mid2.frames@[i2]);
                                    assert(callmid.frames@[i2] == mid.frames@[i2]);
                                }
                                assert(top_replaced(mid, *self));
                                assert(top_frame(*self).pc == top_frame(mid).pc + 1);
                                assert(top_frame(callmid).stack@ =~= top_frame(
                                    mid,
                                ).stack@.subrange(0, top_frame(mid).stack@.len() - 1 - count));
                                assert(top_frame(*self).stack@ =~= top_frame(
                                    mid,
                                ).stack@.subrange(
                                    0,
                                    top_frame(mid).stack@.len() - 1 - count,
                                ).push(value));
                            }
                        }
                        Result::Ok(StepFlow::Continue)
                    },
                    Result::Ok(CallFlow::FramePushed) => {
                        proof {
                            if mid.objects@[callee as int].kind is CodeObj {
                                let pres = top_frame(mid).stack@;
                                assert(self.frames@.subrange(
                                    0,
                                    callmid.frames@.len() as int,
                                ) =~= callmid.frames@);
                                assert forall|i: int|
                                    0 <= i < mid.frames@.len() - 1 implies #[trigger] self.frames@[i]
                                    == mid.frames@[i] by {
                                    assert(self.frames@[i] == callmid.frames@[i]);
                                    assert(callmid.frames@[i] == mid.frames@[i]);
                                }
                                assert(self.frames@[mid.frames@.len() - 1] == callmid.frames@[
                                    fi as int
                                ]);
                                assert(callmid.frames@[fi as int].stack@ =~= pres.subrange(
                                    0,
                                    pres.len() - 1 - count,
                                ));
                                assert(code_view_of(mid, callee) == code_view_of(
                                    callmid,
                                    callee,
                                ));
                                assert(pres.subrange(pres.len() - count, pres.len() as int)
                                    =~= args@);
                                assert(call_steps_into(mid, *self, callee, count as int));
                            }
                        }
                        Result::Ok(StepFlow::Continue)
                    },
                    Result::Err(e) => Result::Err(e),
                }
            },
            Instruction::ReturnValue => {
                let ghost mid = *self;
                let popped: Option<PyObjectRef>;
                {
                    let fr = &mut self.frames[fi];
                    popped = fr.stack.pop();
                }
                proof {
                    assert(frame_ok(mid.frames@[fi as int], mid.objects@));
                    frames_update_ok(mid.frames@, self.objects@, fi as int, self.frames@[fi as int]);
                }
                let v = match popped {
                    Option::Some(v) => v,
                    Option::None => {
                        return Result::Err(
                            VmError::Fatal { message: String::from_str("operand stack underflow") },
                        );
                    },
                };
                proof {
                    assert(mid.frames@[fi as int].stack@.last() == v);
                }
                self.frames.pop();
                if self.frames.len() == 0 {
                    Result::Ok(StepFlow::Finished { value: v })
                } else {
                    let ghost mid2 = *self;
                    let fi2 = self.frames.len() - 1;
                    let fr = &mut self.frames[fi2];
                    fr.stack.push(v);
                    proof {
                        assert(frame_ok(mid2.frames@[fi2 as int], mid2.objects@));
                        frames_update_ok(
                            mid2.frames@,
                            self.objects@,
                            fi2 as int,
                            self.frames@[fi2 as int],
                        );
                    }
                    Result::Ok(StepFlow::Continue)
                }
            },
        }
    }

    /// Drives the fetch-decode-execute loop until the call stack empties,
    /// an error surfaces, or the step budget runs out.
    pub fn drive(&mut self) -> (r: Result<PyObjectRef, VmError>)
        requires
            old(self).wf(),
            old(self).frames@.len() > 0,
        ensures
            final(self).wf(),
            final(self).objects@.len() >= old(self).objects@.len(),
            final(self).modules == old(self).modules,
            old(self).output@.is_prefix_of(final(self).output@),
            r matches Result::Ok(v) ==> final(self).ref_ok(v) && final(self).frames@.len() == 0,
            drive_rel(*old(self), *final(self), r, STEP_LIMIT as nat),
    {
        let mut fuel: u64 = STEP_LIMIT;
        while fuel > 0
            invariant
                self.wf(),
                self.frames@.len() > 0,
                self.objects@.len() >= old(self).objects@.len(),
                self.modules == old(self).modules,
                old(self).output@.is_prefix_of(self.output@),
                forall|post: Executor, rr: Result<PyObjectRef, VmError>|
                    #[trigger] drive_rel(*self, post, rr, fuel as nat) ==> drive_rel(
                        *old(self),
                        post,
                        rr,
                        STEP_LIMIT as nat,
                    ),
            decreases fuel,
        {
            let ghost pre_step = *self;
            let ghost fuel_pre = fuel;
            fuel = fuel - 1;
            match self.step() {
                Result::Ok(StepFlow::Continue) => {
                    proof {
                        assert forall|post: Executor, rr: Result<PyObjectRef, VmError>|
                            #[trigger] drive_rel(*self, post, rr, fuel as nat) implies drive_rel(
                            *old(self),
                            post,
                            rr,
                            STEP_LIMIT as nat,
                        ) by {
                            lemma_drive_rel_step(
                                pre_step,
                                *self,
                                post,
                                Result::Ok(StepFlow::Continue),
                                rr,
                                fuel_pre as nat,
                            );
                        }
                    }
                },
                Result::Ok(StepFlow::Finished { value }) => {
                    proof {
                        lemma_drive_rel_step(
                            pre_step,
                            *self,
                            *self,
                            Result::Ok(StepFlow::Finished { value }),
                            Result::Ok(value),
                            fuel_pre as nat,
                        );
                        assert(drive_rel(
                            pre_step,
                            *self,
                            Result::<PyObjectRef, VmError>::Ok(value),
                            fuel_pre as nat,
                        ));
                    }
                    return Result::Ok(value);
                },
                Result::Err(e) => {
                    let r2 = Result::<PyObjectRef, VmError>::Err(e);
                    proof {
                        lemma_drive_rel_step(
                            pre_step,
                            *self,
                            *self,
                            Result::Err(r2->Err_0),
                            r2,
                            fuel_pre as nat,
                        );
                        assert(drive_rel(pre_step, *self, r2, fuel_pre as nat));
                    }
                    return r2;
                },
            }
        }
        let r2 = Result::<PyObjectRef, VmError>::Err(
            VmError::Fatal { message: String::from_str("step budget exhausted") },
        );
        proof {
            assert(drive_rel(*self, *self, r2, 0));
        }
        r2
    }

    /// Establishes a root frame over a fresh namespace for an
    /// already-compiled code object and executes until the call stack is
    /// empty, returning the final value.
    pub fn run_code(&mut self, code: CodeObject) -> (r: Result<PyObjectRef, VmError>)
        requires
            old(self).wf(),
            old(self).frames@.len() == 0,
        ensures
            final(self).wf(),
            old(self).output@.is_prefix_of(final(self).output@),
            r matches Result::Ok(v) ==> final(self).ref_ok(v) && final(self).frames@.len() == 0,
            exists|setup: Executor|
                #[trigger] entry_state(*old(self), code, setup) && drive_rel(
                    setup,
                    *final(self),
                    r,
                    STEP_LIMIT as nat,
                ),
    {
        let ghost code0 = code;
        let code_ref = self.new_code(code);
        let globals = self.new_dict();
        let fr = Frame { code_ref, pc: 0, stack: Vec::new(), locals: globals, globals };
        proof {
            assert(frame_ok(fr, self.objects@));
        }
        self.frames.push(fr);
        proof {
            assert forall|i: int| 0 <= i < self.frames@.len() implies frame_ok(
                #[trigger] self.frames@[i],
                self.objects@,
            ) by {
                assert(self.frames@[i] == fr);
            }
            assert(entry_state(*old(self), code0, *self));
        }
        let ghost setup = *self;
        let r = self.drive();
        proof {
            assert(entry_state(*old(self), code0, setup));
        }
        r
    }
}

/// The owner of the runtime: a thin shell around the executor that drives
/// whole code objects.
#[derive(Debug)]
pub struct VirtualMachine {
    pub executor: Executor,
}

impl VirtualMachine {
    /// A fresh machine over a fresh executor.
    pub fn new() -> (r: VirtualMachine)
        ensures
            r.executor.wf(),
            r.executor.frames@.len() == 0,
            r.executor.modules@.len() == 0,
            r.executor.output@.len() == 0,
    {
        VirtualMachine { executor: Executor::new() }
    }

    /// Runs an already-compiled code object in a fresh namespace and
    /// reports its final value, or the exception or fatal error that ended
    /// it.
    pub fn run(&mut self, code: CodeObject) -> (r: Result<PyObjectRef, VmError>)
        requires
            old(self).executor.wf(),
            old(self).executor.frames@.len() == 0,
        ensures
            final(self).executor.wf(),
            old(self).executor.output@.is_prefix_of(final(self).executor.output@),
            r matches Result::Ok(v) ==> final(self).executor.ref_ok(v)
                && final(self).executor.frames@.len() == 0,
            exists|setup: Executor|
                #[trigger] entry_state(old(self).executor, code, setup) && drive_rel(
                    setup,
                    final(self).executor,
                    r,
                    STEP_LIMIT as nat,
                ),
    {
        self.executor.run_code(code)
    }
}

} // verus!
