//! The import subsystem: executes a code object as a module and caches the
//! result by name, so that importing a name twice hands out the same
//! object.

use vstd::prelude::*;

use crate::bytecode::CodeObject;
use crate::frame::{frame_ok, Frame};
use crate::pyobject::{dict_find_ref, dict_get, Executor, PyObjectKind, PyObjectRef};
use crate::vm::{drive_rel, entry_state, VmError, STEP_LIMIT};

verus! {

/// Imports a module. Resolving the name to a code object is the caller's
/// policy; this executes the code in a fresh namespace exactly as the
/// machine's entry point does, wraps the resulting namespace as a module
/// object, and caches it by name.
///
/// A name already in the cache is answered from the cache: the result is
/// identical, by identity, to the first import's result, and the whole
/// runtime state stays untouched, so no side effect runs twice. A name not
/// yet cached is answered by the specified execution: the machine runs
/// `code` from the fresh entry state, success is exactly the run's
/// success, and on success the new module wraps that run's own namespace
/// (the dictionary the entry state created), the call stack is empty
/// again, and the cache grows by exactly this one binding.
pub fn import_module(rt: &mut Executor, name: &String, code: CodeObject) -> (r: Result<
    PyObjectRef,
    VmError,
>)
    requires
        old(rt).wf(),
        old(rt).frames@.len() == 0,
    ensures
        final(rt).wf(),
        dict_get(old(rt).modules@, name@) matches Option::Some(m) ==> (r matches Result::Ok(v)
            && v == m && *final(rt) == *old(rt)),
        dict_get(old(rt).modules@, name@) is None ==> (r matches Result::Err(e)
            ==> exists|setup: Executor|
            #[trigger] entry_state(*old(rt), code, setup) && drive_rel(
                setup,
                *final(rt),
                Result::<PyObjectRef, VmError>::Err(e),
                STEP_LIMIT as nat,
            )),
        dict_get(old(rt).modules@, name@) is None ==> (r matches Result::Ok(v)
            ==> exists|setup: Executor, after: Executor, last: PyObjectRef|
            entry_state(*old(rt), code, setup) && #[trigger] drive_rel(
                setup,
                after,
                Result::<PyObjectRef, VmError>::Ok(last),
                STEP_LIMIT as nat,
            ) && final(rt).objects@.len() == after.objects@.len() + 1 && v as int
                == after.objects@.len() as int && (forall|i: int|
                0 <= i < after.objects@.len() ==> final(rt).objects@[i] == after.objects@[i])
                && final(rt).output == after.output),
        dict_get(old(rt).modules@, name@) is None ==> (r matches Result::Ok(v) ==> (
        final(rt).frames@.len() == 0 && final(rt).ref_ok(v)
            && (final(rt).objects@[v as int].kind matches PyObjectKind::Module {
            name: mn,
            dict,
        } && mn@ == name@
            && dict as int == old(rt).objects@.len() as int + 1) && final(rt).modules@.len()
            == old(rt).modules@.len() + 1 && (forall|i: int|
            0 <= i < old(rt).modules@.len() ==> final(rt).modules@[i] == old(rt).modules@[i])
            && final(rt).modules@.last().0@ == name@ && final(rt).modules@.last().1 == v
            && dict_get(final(rt).modules@, name@) == Option::Some(v) && (forall|n: Seq<char>|
            n != name@ ==> #[trigger] dict_get(final(rt).modules@, n) == dict_get(
                old(rt).modules@,
                n,
            )))),
{
    let cached = dict_find_ref(&rt.modules, name, 0);
    if let Option::Some(m) = cached {
        return Result::Ok(m);
    }
    let ghost code0 = code;
    let code_ref = rt.new_code(code);
    let globals = rt.new_dict();
    let fr = Frame { code_ref, pc: 0, stack: Vec::new(), locals: globals, globals };
    proof {
        assert(frame_ok(fr, rt.objects@));
    }
    rt.frames.push(fr);
    proof {
        assert forall|i: int| 0 <= i < rt.frames@.len() implies frame_ok(
            #[trigger] rt.frames@[i],
            rt.objects@,
        ) by {
            assert(rt.frames@[i] == fr);
        }
        assert(entry_state(*old(rt), code0, *rt));
    }
    let ghost setup = *rt;
    match rt.drive() {
        Result::Ok(last) => {
            let ghost after = *rt;
            let m = rt.new_module(name.clone(), globals);
            let ghost oldmods = rt.modules@;
            rt.modules.push((name.clone(), m));
            proof {
                assert forall|i: int|
                    0 <= i < rt.modules@.len() implies (#[trigger] rt.modules@[i]).1
                    < rt.objects@.len() by {
                    if i < rt.modules@.len() - 1 {
                        assert(rt.modules@[i] == oldmods[i]);
                    }
                }
                crate::pyobject::lemma_dict_push_found(
                    oldmods,
                    rt.modules@[rt.modules@.len() - 1],
                    0,
                );
                assert forall|n: Seq<char>| n != name@ implies #[trigger] dict_get(rt.modules@, n)
                    == dict_get(old(rt).modules@, n) by {
                    crate::pyobject::lemma_dict_push_other(
                        oldmods,
                        rt.modules@[rt.modules@.len() - 1],
                        n,
                        0,
                    );
                }
                assert(entry_state(*old(rt), code0, setup));
                assert(drive_rel(
                    setup,
                    after,
                    Result::<PyObjectRef, VmError>::Ok(last),
                    STEP_LIMIT as nat,
                ));
            }
            Result::Ok(m)
        },
        Result::Err(e) => {
            proof {
                assert(entry_state(*old(rt), code0, setup));
            }
            Result::Err(e)
        },
    }
}

} // verus!
