use pyvm::compile::compile;
use pyvm::import::import_module;
use pyvm::parser::parse_program;
use pyvm::pyobject::{Executor, NativeFn, PyObjectKind};
use pyvm::vm::{VirtualMachine, VmError};

fn run_source(source: &str) -> (VirtualMachine, Result<usize, VmError>) {
    let text = String::from(source);
    let program = parse_program(&text).unwrap();
    let code = compile(&program).unwrap();
    let mut vm = VirtualMachine::new();
    let r = vm.run(code);
    (vm, r)
}

fn expect_str(vm: &VirtualMachine, obj: usize, want: &str) {
    match &vm.executor.objects[obj].kind {
        PyObjectKind::Str { value } => assert_eq!(value, want),
        other => panic!("expected a string object, got {:?}", other),
    }
}

fn expect_int(vm: &VirtualMachine, obj: usize, want: i64) {
    match &vm.executor.objects[obj].kind {
        PyObjectKind::Int { value } => assert_eq!(*value, want),
        other => panic!("expected an integer object, got {:?}", other),
    }
}

#[test]
fn test_run_print_hello() {
    let (vm, r) = run_source("print('Hello world')\n");
    assert!(r.is_ok());
    assert_eq!(vm.executor.output.len(), 1);
    expect_str(&vm, vm.executor.output[0], "Hello world");
}

#[test]
fn test_run_print_two_args_in_order() {
    let (vm, r) = run_source("print('Hello world', 2)\n");
    assert!(r.is_ok());
    assert_eq!(vm.executor.output.len(), 2);
    expect_str(&vm, vm.executor.output[0], "Hello world");
    expect_int(&vm, vm.executor.output[1], 2);
}

#[test]
fn test_run_arguments_evaluate_left_to_right() {
    let (vm, r) = run_source("print(print(1), print(2))\n");
    assert!(r.is_ok());
    assert_eq!(vm.executor.output.len(), 4);
    expect_int(&vm, vm.executor.output[0], 1);
    expect_int(&vm, vm.executor.output[1], 2);
    let none_ref = vm.executor.none_ref;
    assert_eq!(vm.executor.output[2], none_ref);
    assert_eq!(vm.executor.output[3], none_ref);
}

#[test]
fn test_if_first_truthy_branch_runs() {
    let (vm, r) = run_source("if 1: print(10)\nelif 2: print(20)\nelse: print(30)\n");
    assert!(r.is_ok());
    assert_eq!(vm.executor.output.len(), 1);
    expect_int(&vm, vm.executor.output[0], 10);
}

#[test]
fn test_if_elif_branch_runs_when_test_is_zero() {
    let (vm, r) = run_source("if 0: print(10)\nelif 2: print(20)\nelse: print(30)\n");
    assert!(r.is_ok());
    assert_eq!(vm.executor.output.len(), 1);
    expect_int(&vm, vm.executor.output[0], 20);
}

#[test]
fn test_if_else_branch_runs_when_both_tests_are_zero() {
    let (vm, r) = run_source("if 0: print(10)\nelif 0: print(20)\nelse: print(30)\n");
    assert!(r.is_ok());
    assert_eq!(vm.executor.output.len(), 1);
    expect_int(&vm, vm.executor.output[0], 30);
}

#[test]
fn test_if_literal_bodies_run_silently() {
    let (vm, r) = run_source("if 1: 10\nelif 2: 20\nelse: 30\n");
    assert!(r.is_ok());
    assert_eq!(vm.executor.output.len(), 0);
}

#[test]
fn test_undefined_name_is_an_exception() {
    let (vm, r) = run_source("nowhere()\n");
    match r {
        Err(VmError::Exception { value }) => expect_str(&vm, value, "name is not defined"),
        other => panic!("expected an exception, got {:?}", other),
    }
}

#[test]
fn test_call_of_non_callable_is_an_exception_value() {
    let mut ex = Executor::new();
    let five = ex.new_int(5);
    match ex.call_value(five, vec![]) {
        Err(VmError::Exception { value }) => match &ex.objects[value].kind {
            PyObjectKind::Str { value } => assert_eq!(value, "object is not callable"),
            other => panic!("expected a string exception, got {:?}", other),
        },
        other => panic!("expected an exception, got {:?}", other),
    }
}

#[test]
fn test_shared_list_mutation_is_visible_through_both_references() {
    let mut ex = Executor::new();
    let item = ex.new_int(1);
    let r1 = ex.new_list(vec![]);
    let r2 = r1;
    assert_eq!(ex.list_len(r2), 0);
    ex.list_append(r1, item);
    assert_eq!(ex.list_len(r2), 1);
}

#[test]
fn test_attr_lookup_falls_back_to_class_chain() {
    let mut ex = Executor::new();
    let int_type = ex.int_type;
    let inst = match ex.call_value(int_type, vec![]) {
        Ok(pyvm::vm::CallFlow::Returned { value }) => value,
        other => panic!("expected an instance, got {:?}", other),
    };
    let name = String::from("__str__");
    let found = ex.attr_lookup(inst, &name).unwrap();
    match &ex.objects[found].kind {
        PyObjectKind::NativeFunction { function } => assert_eq!(*function, NativeFn::IntStr),
        other => panic!("expected the native method, got {:?}", other),
    }
}

#[test]
fn test_reimport_returns_identical_module_and_runs_nothing() {
    let text = String::from("print('side effect')\n");
    let program = parse_program(&text).unwrap();
    let code1 = compile(&program).unwrap();
    let code2 = compile(&program).unwrap();
    let mut ex = Executor::new();
    let name = String::from("mod_a");
    let m1 = import_module(&mut ex, &name, code1).unwrap();
    assert_eq!(ex.output.len(), 1);
    let m2 = import_module(&mut ex, &name, code2).unwrap();
    assert_eq!(m1, m2);
    assert_eq!(ex.output.len(), 1);
    match &ex.objects[m1].kind {
        PyObjectKind::Module { name, .. } => assert_eq!(name, "mod_a"),
        other => panic!("expected a module object, got {:?}", other),
    }
}

#[test]
fn test_constants_are_deduplicated() {
    let text = String::from("print('a', 'a', 'a')\n");
    let program = parse_program(&text).unwrap();
    let code = compile(&program).unwrap();
    let mut seen = 0;
    for c in code.constants.iter() {
        if let pyvm::bytecode::Constant::StrC { value } = c {
            if value == "a" {
                seen += 1;
            }
        }
    }
    assert_eq!(seen, 1);
}

#[test]
fn test_factories_build_the_stated_objects() {
    let mut ex = Executor::new();
    let i = ex.new_int(7);
    match &ex.objects[i].kind {
        PyObjectKind::Int { value } => assert_eq!(*value, 7),
        other => panic!("expected an integer object, got {:?}", other),
    }
    assert_eq!(ex.objects[i].typ, ex.int_type);
    let t = ex.new_bool(true);
    assert_eq!(t, ex.true_ref);
}

fn int_str_native(ex: &mut Executor) -> usize {
    let int_type = ex.int_type;
    let inst = match ex.call_value(int_type, vec![]) {
        Ok(pyvm::vm::CallFlow::Returned { value }) => value,
        other => panic!("expected an instance, got {:?}", other),
    };
    let name = String::from("__str__");
    ex.attr_lookup(inst, &name).unwrap()
}

fn render_int(ex: &mut Executor, n: i64) -> String {
    let f = int_str_native(ex);
    let arg = ex.new_int(n);
    match ex.call_value(f, vec![arg]) {
        Ok(pyvm::vm::CallFlow::Returned { value }) => match &ex.objects[value].kind {
            PyObjectKind::Str { value } => value.clone(),
            other => panic!("expected a string, got {:?}", other),
        },
        other => panic!("expected a value, got {:?}", other),
    }
}

#[test]
fn test_int_str_renders_decimal() {
    let mut ex = Executor::new();
    assert_eq!(render_int(&mut ex, 5), "5");
    assert_eq!(render_int(&mut ex, 0), "0");
    assert_eq!(render_int(&mut ex, 120), "120");
    assert_eq!(render_int(&mut ex, -12), "-12");
    assert_eq!(render_int(&mut ex, i64::MAX), "9223372036854775807");
    assert_eq!(render_int(&mut ex, i64::MIN), "-9223372036854775808");
}

#[test]
fn test_int_str_rejects_non_integer() {
    let mut ex = Executor::new();
    let f = int_str_native(&mut ex);
    let arg = ex.new_str(String::from("x"));
    match ex.call_value(f, vec![arg]) {
        Err(VmError::Exception { value }) => match &ex.objects[value].kind {
            PyObjectKind::Str { value } => assert_eq!(value, "argument is not an integer"),
            other => panic!("expected a string exception, got {:?}", other),
        },
        other => panic!("expected an exception, got {:?}", other),
    }
}
