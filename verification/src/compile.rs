//! The bytecode compiler: post-order, stack-discipline code generation
//! from the program tree into a flat, jump-addressed instruction stream.
//!
//! Expression code leaves exactly one value on the operand stack;
//! statement code has net-zero stack effect. Conditional statements emit a
//! placeholder jump during the single forward traversal and patch its
//! target once the destination's offset is known. Constants and names are
//! deduplicated into ordered pools. Every emitting function is specified
//! against a specification-level compiler over the tree's mathematical
//! model, and produces exactly what that compiler names.

use vstd::prelude::*;

use crate::ast::{expr_view, exprs_view, stmt_view, stmts_view, Expression, ExprV, Program,
    Statement, StmtV};
use crate::bytecode::{cview, nview, CodeObject, CodeV, Constant, ConstV, Instruction};
use vstd::string::StringExecFns;

verus! {

/// A structurally invalid tree, reported to the compiler's caller.
#[derive(Debug)]
pub struct CompileError {
    pub message: String,
}

/// The compiler's threaded state: the instruction stream and the two
/// deduplicated pools.
pub struct CompState {
    pub ins: Seq<Instruction>,
    pub consts: Seq<ConstV>,
    pub names: Seq<Seq<char>>,
}

/// Index of the first pool entry equal to `c`, from `i` on.
pub open spec fn const_index_from(consts: Seq<ConstV>, c: ConstV, i: int) -> Option<int>
    decreases consts.len() - i,
{
    if i < 0 || i >= consts.len() {
        Option::None
    } else if consts[i] == c {
        Option::Some(i)
    } else {
        const_index_from(consts, c, i + 1)
    }
}

/// The pool with `c` present, and its index: an equal entry is reused.
pub open spec fn add_const(consts: Seq<ConstV>, c: ConstV) -> (Seq<ConstV>, int) {
    match const_index_from(consts, c, 0) {
        Option::Some(k) => (consts, k),
        Option::None => (consts.push(c), consts.len() as int),
    }
}

pub open spec fn name_index_from(names: Seq<Seq<char>>, n: Seq<char>, i: int) -> Option<int>
    decreases names.len() - i,
{
    if i < 0 || i >= names.len() {
        Option::None
    } else if names[i] == n {
        Option::Some(i)
    } else {
        name_index_from(names, n, i + 1)
    }
}

pub open spec fn add_name(names: Seq<Seq<char>>, n: Seq<char>) -> (Seq<Seq<char>>, int) {
    match name_index_from(names, n, 0) {
        Option::Some(k) => (names, k),
        Option::None => (names.push(n), names.len() as int),
    }
}

/// Code for one expression: when executed it leaves exactly one value on
/// the operand stack. A call compiles its callee, then each argument left
/// to right, then one call instruction.
pub open spec fn sc_expr(e: ExprV, st: CompState) -> CompState
    decreases e,
{
    match e {
        ExprV::NumberV { value } => {
            let (cs, k) = add_const(st.consts, ConstV::IntV { value });
            CompState {
                ins: st.ins.push(Instruction::LoadConst { idx: k as usize }),
                consts: cs,
                names: st.names,
            }
        },
        ExprV::StrV { value } => {
            let (cs, k) = add_const(st.consts, ConstV::StrV { value });
            CompState {
                ins: st.ins.push(Instruction::LoadConst { idx: k as usize }),
                consts: cs,
                names: st.names,
            }
        },
        ExprV::IdentifierV { name } => {
            let (ns, k) = add_name(st.names, name);
            CompState {
                ins: st.ins.push(Instruction::LoadName { idx: k as usize }),
                consts: st.consts,
                names: ns,
            }
        },
        ExprV::CallV { function, args } => {
            let st1 = sc_expr(*function, st);
            let st2 = sc_exprs(args, st1);
            CompState {
                ins: st2.ins.push(Instruction::CallFunction { count: args.len() as usize }),
                consts: st2.consts,
                names: st2.names,
            }
        },
    }
}

/// Code for a sequence of expressions, each left on the stack in turn, in
/// left-to-right source order.
pub open spec fn sc_exprs(es: Seq<ExprV>, st: CompState) -> CompState
    decreases es,
{
    if es.len() == 0 {
        st
    } else {
        sc_expr(es[es.len() - 1], sc_exprs(es.subrange(0, es.len() - 1), st))
    }
}

/// Code for one statement: net-zero stack effect. A conditional compiles
/// its test, a conditional jump to the start of the `orelse` code (or past
/// the body when there is none), the body, an unconditional jump past the
/// `orelse` code, then that code; the two targets are patched in once
/// known.
pub open spec fn sc_stmt(stv: StmtV, st: CompState) -> CompState
    decreases stv,
{
    match stv {
        StmtV::ExpressionV { expression } => {
            let st1 = sc_expr(expression, st);
            CompState {
                ins: st1.ins.push(Instruction::PopTop),
                consts: st1.consts,
                names: st1.names,
            }
        },
        StmtV::IfV { test, body, orelse } => {
            let st1 = sc_expr(test, st);
            let pos = st1.ins.len() as int;
            let st2 = sc_stmts(
                body,
                CompState {
                    ins: st1.ins.push(Instruction::JumpIfFalse { target: 0 }),
                    consts: st1.consts,
                    names: st1.names,
                },
            );
            match orelse {
                Option::None => CompState {
                    ins: st2.ins.update(
                        pos,
                        Instruction::JumpIfFalse { target: st2.ins.len() as usize },
                    ),
                    consts: st2.consts,
                    names: st2.names,
                },
                Option::Some(els) => {
                    let pos2 = st2.ins.len() as int;
                    let st3 = sc_stmts(
                        els,
                        CompState {
                            ins: st2.ins.push(Instruction::JumpAbsolute { target: 0 }),
                            consts: st2.consts,
                            names: st2.names,
                        },
                    );
                    CompState {
                        ins: st3.ins.update(
                            pos,
                            Instruction::JumpIfFalse { target: (pos2 + 1) as usize },
                        ).update(pos2, Instruction::JumpAbsolute { target: st3.ins.len() as usize }),
                        consts: st3.consts,
                        names: st3.names,
                    }
                },
            }
        },
    }
}

/// Code for a statement sequence, in source order.
pub open spec fn sc_stmts(ss: Seq<StmtV>, st: CompState) -> CompState
    decreases ss,
{
    if ss.len() == 0 {
        st
    } else {
        sc_stmt(ss[ss.len() - 1], sc_stmts(ss.subrange(0, ss.len() - 1), st))
    }
}

/// What compiling a whole program means: its statements in order, then
/// code that returns the none constant.
pub open spec fn spec_compile_program(p: Seq<StmtV>) -> CodeV {
    let st0 = CompState { ins: Seq::empty(), consts: Seq::empty(), names: Seq::empty() };
    let st1 = sc_stmts(p, st0);
    let (cs, k) = add_const(st1.consts, ConstV::NoneV);
    CodeV {
        instructions: st1.ins.push(Instruction::LoadConst { idx: k as usize }).push(
            Instruction::ReturnValue,
        ),
        constants: cs,
        names: st1.names,
        arg_count: 0,
        name: "module"@,
    }
}

/// What compiling one statement for interactive use means.
pub open spec fn spec_compile_statement(stv: StmtV) -> CodeV {
    let st0 = CompState { ins: Seq::empty(), consts: Seq::empty(), names: Seq::empty() };
    let st1 = sc_stmt(stv, st0);
    let (cs, k) = add_const(st1.consts, ConstV::NoneV);
    CodeV {
        instructions: st1.ins.push(Instruction::LoadConst { idx: k as usize }).push(
            Instruction::ReturnValue,
        ),
        constants: cs,
        names: st1.names,
        arg_count: 0,
        name: "statement"@,
    }
}

/// What compiling one expression for interactive use means: its value is
/// the code's result.
pub open spec fn spec_compile_expression(e: ExprV) -> CodeV {
    let st0 = CompState { ins: Seq::empty(), consts: Seq::empty(), names: Seq::empty() };
    let st1 = sc_expr(e, st0);
    CodeV {
        instructions: st1.ins.push(Instruction::ReturnValue),
        constants: st1.consts,
        names: st1.names,
        arg_count: 0,
        name: "expression"@,
    }
}

fn const_eq(a: &Constant, b: &Constant) -> (r: bool)
    ensures
        r == (a@ == b@),
{
    match (a, b) {
        (Constant::IntC { value: x }, Constant::IntC { value: y }) => x == y,
        (Constant::StrC { value: x }, Constant::StrC { value: y }) => x.eq(y),
        (Constant::BoolC { value: x }, Constant::BoolC { value: y }) => x == y,
        (Constant::NoneC, Constant::NoneC) => true,
        _ => false,
    }
}

fn find_const(consts: &Vec<Constant>, c: &Constant, i: usize) -> (r: Option<usize>)
    requires
        i <= consts@.len(),
    ensures
        match r {
            Option::Some(k) => const_index_from(cview(consts@), c@, i as int) == Option::Some(
                k as int,
            ) && k < consts@.len(),
            Option::None => const_index_from(cview(consts@), c@, i as int) is None,
        },
    decreases consts@.len() - i,
{
    if i >= consts.len() {
        return Option::None;
    }
    if const_eq(&consts[i], c) {
        Option::Some(i)
    } else {
        find_const(consts, c, i + 1)
    }
}

fn find_name(names: &Vec<String>, n: &String, i: usize) -> (r: Option<usize>)
    requires
        i <= names@.len(),
    ensures
        match r {
            Option::Some(k) => name_index_from(nview(names@), n@, i as int) == Option::Some(
                k as int,
            ) && k < names@.len(),
            Option::None => name_index_from(nview(names@), n@, i as int) is None,
        },
    decreases names@.len() - i,
{
    if i >= names.len() {
        return Option::None;
    }
    if names[i].eq(n) {
        Option::Some(i)
    } else {
        find_name(names, n, i + 1)
    }
}

fn push_const(consts: &mut Vec<Constant>, c: Constant) -> (k: usize)
    ensures
        ({
            let (cs, sk) = add_const(cview(old(consts)@), c@);
            cview(final(consts)@) == cs && sk == k as int && k <= old(consts)@.len()
        }),
{
    let ghost oldv = cview(consts@);
    match find_const(consts, &c, 0) {
        Option::Some(k) => k,
        Option::None => {
            let k = consts.len();
            consts.push(c);
            proof {
                assert(cview(consts@) =~= oldv.push(consts@[consts@.len() - 1]@));
            }
            k
        },
    }
}

fn push_name(names: &mut Vec<String>, n: String) -> (k: usize)
    ensures
        ({
            let (ns, sk) = add_name(nview(old(names)@), n@);
            nview(final(names)@) == ns && sk == k as int && k <= old(names)@.len()
        }),
{
    let ghost oldv = nview(names@);
    match find_name(names, &n, 0) {
        Option::Some(k) => k,
        Option::None => {
            let k = names.len();
            names.push(n);
            proof {
                assert(nview(names@) =~= oldv.push(names@[names@.len() - 1]@));
            }
            k
        },
    }
}


proof fn exprs_view_props(s: Seq<Expression>)
    ensures
        exprs_view(s).len() == s.len(),
        forall|i: int| 0 <= i < s.len() ==> #[trigger] exprs_view(s)[i] == expr_view(s[i]),
    decreases s,
{
    if s.len() > 0 {
        exprs_view_props(s.subrange(0, s.len() - 1));
        assert forall|i: int| 0 <= i < s.len() implies #[trigger] exprs_view(s)[i] == expr_view(
            s[i],
        ) by {
            if i < s.len() - 1 {
                assert(s.subrange(0, s.len() - 1)[i] == s[i]);
            }
        }
    }
}

proof fn stmts_view_props(s: Seq<Statement>)
    ensures
        stmts_view(s).len() == s.len(),
        forall|i: int| 0 <= i < s.len() ==> #[trigger] stmts_view(s)[i] == stmt_view(s[i]),
    decreases s,
{
    if s.len() > 0 {
        stmts_view_props(s.subrange(0, s.len() - 1));
        assert forall|i: int| 0 <= i < s.len() implies #[trigger] stmts_view(s)[i] == stmt_view(
            s[i],
        ) by {
            if i < s.len() - 1 {
                assert(s.subrange(0, s.len() - 1)[i] == s[i]);
            }
        }
    }
}


proof fn sc_expr_len(e: ExprV, st: CompState)
    ensures
        sc_expr(e, st).ins.len() > st.ins.len(),
    decreases e,
{
    match e {
        ExprV::CallV { function, args } => {
            sc_expr_len(*function, st);
            sc_exprs_len(args, sc_expr(*function, st));
        },
        _ => {},
    }
}

proof fn sc_exprs_len(es: Seq<ExprV>, st: CompState)
    ensures
        sc_exprs(es, st).ins.len() >= st.ins.len(),
    decreases es,
{
    if es.len() > 0 {
        sc_exprs_len(es.subrange(0, es.len() - 1), st);
        sc_expr_len(es[es.len() - 1], sc_exprs(es.subrange(0, es.len() - 1), st));
    }
}

proof fn sc_stmt_len(stv: StmtV, st: CompState)
    ensures
        sc_stmt(stv, st).ins.len() > st.ins.len(),
    decreases stv,
{
    match stv {
        StmtV::ExpressionV { expression } => {
            sc_expr_len(expression, st);
        },
        StmtV::IfV { test, body, orelse } => {
            sc_expr_len(test, st);
            let st1 = sc_expr(test, st);
            let mid = CompState {
                ins: st1.ins.push(Instruction::JumpIfFalse { target: 0 }),
                consts: st1.consts,
                names: st1.names,
            };
            sc_stmts_len(body, mid);
            let st2 = sc_stmts(body, mid);
            match orelse {
                Option::None => {},
                Option::Some(els) => {
                    let mid2 = CompState {
                        ins: st2.ins.push(Instruction::JumpAbsolute { target: 0 }),
                        consts: st2.consts,
                        names: st2.names,
                    };
                    sc_stmts_len(els, mid2);
                },
            }
        },
    }
}

proof fn sc_stmts_len(ss: Seq<StmtV>, st: CompState)
    ensures
        sc_stmts(ss, st).ins.len() >= st.ins.len(),
    decreases ss,
{
    if ss.len() > 0 {
        sc_stmts_len(ss.subrange(0, ss.len() - 1), st);
        sc_stmt_len(ss[ss.len() - 1], sc_stmts(ss.subrange(0, ss.len() - 1), st));
    }
}

fn emit_args(
    args: &Vec<Expression>,
    ins: &mut Vec<Instruction>,
    consts: &mut Vec<Constant>,
    names: &mut Vec<String>,
)
    ensures
        ({
            let st = sc_exprs(
                exprs_view(args@),
                CompState {
                    ins: old(ins)@,
                    consts: cview(old(consts)@),
                    names: nview(old(names)@),
                },
            );
            final(ins)@ == st.ins && cview(final(consts)@) == st.consts && nview(final(names)@)
                == st.names
        }),
    decreases args@,
{
    let ghost st1 = CompState { ins: ins@, consts: cview(consts@), names: nview(names@) };
    let ghost argviews = exprs_view(args@);
    proof {
        exprs_view_props(args@);
        assert(argviews.subrange(0, 0) =~= Seq::<ExprV>::empty());
    }
    let mut i: usize = 0;
    while i < args.len()
        invariant
            i <= args@.len(),
            argviews == exprs_view(args@),
            argviews.len() == args@.len(),
            forall|q: int| 0 <= q < args@.len() ==> #[trigger] argviews[q] == expr_view(args@[q]),
            ({
                let st = sc_exprs(argviews.subrange(0, i as int), st1);
                ins@ == st.ins && cview(consts@) == st.consts && nview(names@) == st.names
            }),
        decreases args@.len() - i,
    {
        emit_expr(&args[i], ins, consts, names);
        proof {
            let p1 = argviews.subrange(0, i + 1);
            assert(p1.subrange(0, i as int) =~= argviews.subrange(0, i as int));
            assert(p1[i as int] == expr_view(args@[i as int]));
        }
        i = i + 1;
    }
    proof {
        assert(argviews.subrange(0, args@.len() as int) =~= argviews);
    }
}

fn emit_expr(
    e: &Expression,
    ins: &mut Vec<Instruction>,
    consts: &mut Vec<Constant>,
    names: &mut Vec<String>,
)
    ensures
        ({
            let st = sc_expr(
                expr_view(*e),
                CompState {
                    ins: old(ins)@,
                    consts: cview(old(consts)@),
                    names: nview(old(names)@),
                },
            );
            final(ins)@ == st.ins && cview(final(consts)@) == st.consts && nview(final(names)@)
                == st.names
        }),
    decreases *e,
{
    match e {
        Expression::Number { value } => {
            let k = push_const(consts, Constant::IntC { value: *value });
            ins.push(Instruction::LoadConst { idx: k });
        },
        Expression::Str { value } => {
            let k = push_const(consts, Constant::StrC { value: value.clone() });
            ins.push(Instruction::LoadConst { idx: k });
        },
        Expression::Identifier { name } => {
            let k = push_name(names, name.clone());
            ins.push(Instruction::LoadName { idx: k });
        },
        Expression::Call { function, args } => {
            emit_expr(function, ins, consts, names);
            emit_args(args, ins, consts, names);
            proof {
                exprs_view_props(args@);
            }
            ins.push(Instruction::CallFunction { count: args.len() });
        },
    }
}

fn emit_stmts(
    ss: &Vec<Statement>,
    ins: &mut Vec<Instruction>,
    consts: &mut Vec<Constant>,
    names: &mut Vec<String>,
)
    ensures
        ({
            let st = sc_stmts(
                stmts_view(ss@),
                CompState {
                    ins: old(ins)@,
                    consts: cview(old(consts)@),
                    names: nview(old(names)@),
                },
            );
            final(ins)@ == st.ins && cview(final(consts)@) == st.consts && nview(final(names)@)
                == st.names
        }),
    decreases ss@,
{
    let ghost st0 = CompState { ins: ins@, consts: cview(consts@), names: nview(names@) };
    let ghost views = stmts_view(ss@);
    proof {
        stmts_view_props(ss@);
        assert(views.subrange(0, 0) =~= Seq::<StmtV>::empty());
    }
    let mut i: usize = 0;
    while i < ss.len()
        invariant
            i <= ss@.len(),
            views == stmts_view(ss@),
            views.len() == ss@.len(),
            forall|q: int| 0 <= q < ss@.len() ==> #[trigger] views[q] == stmt_view(ss@[q]),
            ({
                let st = sc_stmts(views.subrange(0, i as int), st0);
                ins@ == st.ins && cview(consts@) == st.consts && nview(names@) == st.names
            }),
        decreases ss@.len() - i,
    {
        emit_stmt(&ss[i], ins, consts, names);
        proof {
            let p1 = views.subrange(0, i + 1);
            assert(p1.subrange(0, i as int) =~= views.subrange(0, i as int));
            assert(p1[i as int] == stmt_view(ss@[i as int]));
        }
        i = i + 1;
    }
    proof {
        assert(views.subrange(0, ss@.len() as int) =~= views);
    }
}

fn emit_stmt(
    s: &Statement,
    ins: &mut Vec<Instruction>,
    consts: &mut Vec<Constant>,
    names: &mut Vec<String>,
)
    ensures
        ({
            let st = sc_stmt(
                stmt_view(*s),
                CompState {
                    ins: old(ins)@,
                    consts: cview(old(consts)@),
                    names: nview(old(names)@),
                },
            );
            final(ins)@ == st.ins && cview(final(consts)@) == st.consts && nview(final(names)@)
                == st.names
        }),
    decreases *s,
{
    match s {
        Statement::Expression { expression } => {
            emit_expr(expression, ins, consts, names);
            ins.push(Instruction::PopTop);
        },
        Statement::If { test, body, orelse } => {
            emit_expr(test, ins, consts, names);
            let pos = ins.len();
            ins.push(Instruction::JumpIfFalse { target: 0 });
            emit_stmts(body, ins, consts, names);
            proof {
                let stv = stmt_view(*s);
                match stv {
                    StmtV::IfV { test, body, orelse: oe } => {
                        let st0 = CompState {
                            ins: old(ins)@,
                            consts: cview(old(consts)@),
                            names: nview(old(names)@),
                        };
                        let st1 = sc_expr(test, st0);
                        let mid = CompState {
                            ins: st1.ins.push(Instruction::JumpIfFalse { target: 0 }),
                            consts: st1.consts,
                            names: st1.names,
                        };
                        sc_stmts_len(body, mid);
                    },
                    _ => {},
                }
            }
            match orelse {
                Option::None => {
                    let end = ins.len();
                    ins[pos] = Instruction::JumpIfFalse { target: end };
                },
                Option::Some(els) => {
                    let pos2 = ins.len();
                    ins.push(Instruction::JumpAbsolute { target: 0 });
                    emit_stmts(els, ins, consts, names);
                    let end = ins.len();
                    proof {
                        let stv = stmt_view(*s);
                        match stv {
                            StmtV::IfV { test, body, orelse: oe } => {
                                let st0 = CompState {
                                    ins: old(ins)@,
                                    consts: cview(old(consts)@),
                                    names: nview(old(names)@),
                                };
                                let st1 = sc_expr(test, st0);
                                let mid = CompState {
                                    ins: st1.ins.push(Instruction::JumpIfFalse { target: 0 }),
                                    consts: st1.consts,
                                    names: st1.names,
                                };
                                let st2 = sc_stmts(body, mid);
                                let mid2 = CompState {
                                    ins: st2.ins.push(Instruction::JumpAbsolute { target: 0 }),
                                    consts: st2.consts,
                                    names: st2.names,
                                };
                                match oe {
                                    Option::Some(elsv) => {
                                        sc_stmts_len(elsv, mid2);
                                    },
                                    Option::None => {},
                                }
                            },
                            _ => {},
                        }
                    }
                    ins[pos] = Instruction::JumpIfFalse { target: pos2 + 1 };
                    ins[pos2] = Instruction::JumpAbsolute { target: end };
                },
            }
        },
    }
}

/// Compiles a program tree into a code object: exactly the instruction
/// stream, constant pool and name table that `spec_compile_program` names
/// for it. Every tree of this representation compiles, so the result is
/// always the code object.
pub fn compile(p: &Program) -> (r: Result<CodeObject, CompileError>)
    ensures
        r matches Result::Ok(c) && c@ == spec_compile_program(p@),
{
    let mut ins: Vec<Instruction> = Vec::new();
    let mut consts: Vec<Constant> = Vec::new();
    let mut names: Vec<String> = Vec::new();
    proof {
        assert(cview(consts@) =~= Seq::<ConstV>::empty());
        assert(nview(names@) =~= Seq::<Seq<char>>::empty());
    }
    emit_stmts(&p.statements, &mut ins, &mut consts, &mut names);
    let k = push_const(&mut consts, Constant::NoneC);
    ins.push(Instruction::LoadConst { idx: k });
    ins.push(Instruction::ReturnValue);
    let c = CodeObject {
        instructions: ins,
        constants: consts,
        names,
        arg_count: 0,
        name: String::from_str("module"),
    };
    Result::Ok(c)
}

/// Compiles one statement for interactive use.
pub fn compile_statement(s: &Statement) -> (r: Result<CodeObject, CompileError>)
    ensures
        r matches Result::Ok(c) && c@ == spec_compile_statement(s@),
{
    let mut ins: Vec<Instruction> = Vec::new();
    let mut consts: Vec<Constant> = Vec::new();
    let mut names: Vec<String> = Vec::new();
    proof {
        assert(cview(consts@) =~= Seq::<ConstV>::empty());
        assert(nview(names@) =~= Seq::<Seq<char>>::empty());
    }
    emit_stmt(s, &mut ins, &mut consts, &mut names);
    let k = push_const(&mut consts, Constant::NoneC);
    ins.push(Instruction::LoadConst { idx: k });
    ins.push(Instruction::ReturnValue);
    let c = CodeObject {
        instructions: ins,
        constants: consts,
        names,
        arg_count: 0,
        name: String::from_str("statement"),
    };
    Result::Ok(c)
}

/// Compiles one expression for interactive use: its value is the code's
/// result.
pub fn compile_expression(e: &Expression) -> (r: Result<CodeObject, CompileError>)
    ensures
        r matches Result::Ok(c) && c@ == spec_compile_expression(e@),
{
    let mut ins: Vec<Instruction> = Vec::new();
    let mut consts: Vec<Constant> = Vec::new();
    let mut names: Vec<String> = Vec::new();
    proof {
        assert(cview(consts@) =~= Seq::<ConstV>::empty());
        assert(nview(names@) =~= Seq::<Seq<char>>::empty());
    }
    emit_expr(e, &mut ins, &mut consts, &mut names);
    ins.push(Instruction::ReturnValue);
    let c = CodeObject {
        instructions: ins,
        constants: consts,
        names,
        arg_count: 0,
        name: String::from_str("expression"),
    };
    Result::Ok(c)
}


proof fn sc_expr_prefix(e: ExprV, st: CompState)
    ensures
        sc_expr(e, st).ins.subrange(0, st.ins.len() as int) == st.ins,
    decreases e,
{
    match e {
        ExprV::CallV { function, args } => {
            sc_expr_prefix(*function, st);
            sc_expr_len(*function, st);
            let st1 = sc_expr(*function, st);
            sc_exprs_prefix(args, st1);
            sc_exprs_len(args, st1);
            let st2 = sc_exprs(args, st1);
            let full = sc_expr(e, st);
            assert(full.ins.subrange(0, st.ins.len() as int) =~= st.ins) by {
                assert forall|i: int| 0 <= i < st.ins.len() implies full.ins[i] == st.ins[i] by {
                    assert(st2.ins.subrange(0, st1.ins.len() as int)[i] == st1.ins[i]);
                    assert(st1.ins.subrange(0, st.ins.len() as int)[i] == st.ins[i]);
                }
            }
        },
        _ => {
            assert(sc_expr(e, st).ins.subrange(0, st.ins.len() as int) =~= st.ins);
        },
    }
}

proof fn sc_exprs_prefix(es: Seq<ExprV>, st: CompState)
    ensures
        sc_exprs(es, st).ins.subrange(0, st.ins.len() as int) == st.ins,
    decreases es,
{
    if es.len() == 0 {
        assert(sc_exprs(es, st).ins.subrange(0, st.ins.len() as int) =~= st.ins);
    } else {
        let front = es.subrange(0, es.len() - 1);
        sc_exprs_prefix(front, st);
        sc_exprs_len(front, st);
        let st1 = sc_exprs(front, st);
        sc_expr_prefix(es[es.len() - 1], st1);
        sc_expr_len(es[es.len() - 1], st1);
        let full = sc_exprs(es, st);
        assert(full.ins.subrange(0, st.ins.len() as int) =~= st.ins) by {
            assert forall|i: int| 0 <= i < st.ins.len() implies full.ins[i] == st.ins[i] by {
                assert(full.ins.subrange(0, st1.ins.len() as int)[i] == st1.ins[i]);
                assert(st1.ins.subrange(0, st.ins.len() as int)[i] == st.ins[i]);
            }
        }
    }
}

proof fn lemma_args_decompose(es: Seq<ExprV>, st: CompState, i: int)
    requires
        0 <= i < es.len(),
    ensures
        sc_exprs(es.subrange(0, i + 1), st) == sc_expr(
            es[i],
            sc_exprs(es.subrange(0, i), st),
        ),
{
    let p1 = es.subrange(0, i + 1);
    assert(p1.subrange(0, i) =~= es.subrange(0, i));
    assert(p1[i] == es[i]);
}

proof fn lemma_args_chain(es: Seq<ExprV>, st: CompState, i: int)
    requires
        0 <= i <= es.len(),
    ensures
        sc_exprs(es.subrange(0, i), st).ins.is_prefix_of(sc_exprs(es, st).ins),
    decreases es.len() - i,
{
    if i == es.len() {
        assert(es.subrange(0, i) =~= es);
        assert(sc_exprs(es, st).ins.is_prefix_of(sc_exprs(es, st).ins)) by {
            assert(sc_exprs(es, st).ins.subrange(0, sc_exprs(es, st).ins.len() as int) =~= sc_exprs(
                es,
                st,
            ).ins);
        }
    } else {
        lemma_args_decompose(es, st, i);
        let sti = sc_exprs(es.subrange(0, i), st);
        sc_expr_prefix(es[i], sti);
        sc_expr_len(es[i], sti);
        lemma_args_chain(es, st, i + 1);
        let stn = sc_exprs(es.subrange(0, i + 1), st);
        let full = sc_exprs(es, st);
        assert(sti.ins.is_prefix_of(full.ins)) by {
            assert(stn.ins.is_prefix_of(full.ins));
            assert(stn.ins.subrange(0, sti.ins.len() as int) == sti.ins);
            assert forall|q: int| 0 <= q < sti.ins.len() implies full.ins[q] == sti.ins[q] by {
                assert(full.ins.subrange(0, stn.ins.len() as int)[q] == stn.ins[q]);
                assert(stn.ins.subrange(0, sti.ins.len() as int)[q] == sti.ins[q]);
            }
            assert(sti.ins =~= full.ins.subrange(0, sti.ins.len() as int));
        }
    }
}

/// Evaluation order of calls: the compiled code of a call holds the
/// callee's code first, then each argument's code in left-to-right source
/// order (the code compiled for the first `i` arguments is a prefix of the
/// code compiled for the first `i + 1`), and ends with the one call
/// instruction. Since the machine executes the instruction sequence in
/// position order, argument expressions evaluate left to right, in source
/// order, before the call runs.
pub proof fn lemma_call_compiles_left_to_right(function: ExprV, args: Seq<ExprV>, st: CompState)
    ensures
        ({
            let st1 = sc_expr(function, st);
            let full = sc_expr(ExprV::CallV { function: Box::new(function), args }, st);
            &&& st1.ins.subrange(0, st.ins.len() as int) == st.ins
            &&& st1.ins.is_prefix_of(full.ins)
            &&& forall|i: int, j: int|
                0 <= i <= j <= args.len() ==> (#[trigger] sc_exprs(args.subrange(0, i), st1).ins)
                    .is_prefix_of(#[trigger] sc_exprs(args.subrange(0, j), st1).ins)
            &&& forall|i: int|
                0 <= i <= args.len() ==> (#[trigger] sc_exprs(args.subrange(0, i), st1).ins)
                    .is_prefix_of(full.ins)
            &&& full.ins.last() == (Instruction::CallFunction { count: args.len() as usize })
        }),
{
    let st1 = sc_expr(function, st);
    let st2 = sc_exprs(args, st1);
    let full = sc_expr(ExprV::CallV { function: Box::new(function), args }, st);
    sc_expr_prefix(function, st);
    assert(full.ins == st2.ins.push(Instruction::CallFunction { count: args.len() as usize }));
    assert forall|i: int, j: int|
        0 <= i <= j <= args.len() implies (#[trigger] sc_exprs(args.subrange(0, i), st1).ins)
        .is_prefix_of(#[trigger] sc_exprs(args.subrange(0, j), st1).ins) by {
        let pj = args.subrange(0, j);
        assert(pj.subrange(0, i) =~= args.subrange(0, i));
        lemma_args_chain(pj, st1, i);
    }
    assert forall|i: int|
        0 <= i <= args.len() implies (#[trigger] sc_exprs(args.subrange(0, i), st1).ins)
        .is_prefix_of(full.ins) by {
        lemma_args_chain(args, st1, i);
        let pi = sc_exprs(args.subrange(0, i), st1);
        assert(pi.ins.is_prefix_of(st2.ins));
        assert forall|q: int| 0 <= q < pi.ins.len() implies full.ins[q] == pi.ins[q] by {
            assert(st2.ins.subrange(0, pi.ins.len() as int)[q] == pi.ins[q]);
        }
        assert(pi.ins =~= full.ins.subrange(0, pi.ins.len() as int));
    }
    assert(st1.ins.is_prefix_of(full.ins)) by {
        assert(args.subrange(0, 0) =~= Seq::<ExprV>::empty());
        assert(sc_exprs(args.subrange(0, 0), st1) == st1);
        assert(sc_exprs(args.subrange(0, 0), st1).ins.is_prefix_of(full.ins));
    }
}

} // verus!
