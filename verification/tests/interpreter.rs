use rustpython_vm::bytecode::{CodeObject, ExceptionRegion, Instruction};
use rustpython_vm::exceptions::{Exception, ExceptionKind};
use rustpython_vm::frame::{find_handler, Frame, FrameState};
use rustpython_vm::interpreter::{Interpreter, Progress};
use rustpython_vm::obj::objstr;
use rustpython_vm::pyobject::{CodeRef, ObjRef, PyObjectKind, ScopeRef};
use rustpython_vm::scope::{find_name, store_name};

use Instruction::{
    BuildTuple, CallFunction, CompareEq, Jump, JumpIfFalse, LoadAttr, LoadConst, LoadName, MakeFunction, Pop,
    PrintExpr, Raise, ReturnValue, StoreAttr, StoreName, Subscript,
};

fn load(name: &str) -> Instruction {
    LoadName { name: name.to_string() }
}

fn store(name: &str) -> Instruction {
    StoreName { name: name.to_string() }
}

fn konst(value: ObjRef) -> Instruction {
    LoadConst { value }
}

fn block(name: &str, params: &[&str], instructions: Vec<Instruction>, regions: Vec<ExceptionRegion>) -> CodeObject {
    CodeObject {
        name: name.to_string(),
        params: params.iter().map(|p| p.to_string()).collect(),
        instructions,
        regions,
    }
}

fn add(interpreter: &mut Interpreter, code: CodeObject) -> CodeRef {
    interpreter.vm.ctx.add_code(code).expect("well-formed code")
}

fn module(interpreter: &mut Interpreter, instructions: Vec<Instruction>) -> CodeRef {
    add(interpreter, block("<module>", &[], instructions, vec![]))
}

fn finish(interpreter: &mut Interpreter) -> Result<ObjRef, Exception> {
    for _ in 0..10_000 {
        assert!(interpreter.wf_at_run_time());
        match interpreter.step() {
            Progress::Continue => {}
            Progress::Finished(result) => {
                assert!(interpreter.is_idle());
                return result;
            }
            Progress::Idle => panic!("nothing to run"),
        }
    }
    panic!("does not end");
}

trait Checked {
    fn wf_at_run_time(&self) -> bool;
}

impl Checked for Interpreter {
    fn wf_at_run_time(&self) -> bool {
        let objects = self.vm.ctx.len();
        let n = self.frames.len();
        self.frames.iter().enumerate().all(|(i, f)| {
            f.code.index < self.vm.ctx.code_count()
                && f.scope.index < self.vm.ctx.scope_count()
                && f.stack.iter().all(|r| r.index < objects)
                && ((i + 1 < n) == (f.state == FrameState::Suspended))
        })
    }
}

fn run(interpreter: &mut Interpreter, code: CodeRef, scope: ScopeRef) -> Result<ObjRef, Exception> {
    assert!(interpreter.is_idle());
    interpreter.run_code_obj(code, scope);
    finish(interpreter)
}

fn run_module(interpreter: &mut Interpreter, instructions: Vec<Instruction>) -> Result<ObjRef, Exception> {
    let code = module(interpreter, instructions);
    let scope = interpreter.new_scope();
    run(interpreter, code, scope)
}

fn ints(interpreter: &mut Interpreter, values: &[i64]) -> Vec<ObjRef> {
    values.iter().map(|v| interpreter.vm.ctx.new_int(*v)).collect()
}

fn kind(interpreter: &Interpreter, r: ObjRef) -> PyObjectKind {
    interpreter.vm.ctx.kind_of(r).clone()
}

#[test]
fn a_script_that_shows_a_single_element_tuple() {
    let mut interpreter = Interpreter::new();
    let one = interpreter.vm.ctx.new_int(1);
    let result = run_module(&mut interpreter, vec![konst(one), BuildTuple { size: 1 }, PrintExpr]);
    assert_eq!(result, Ok(interpreter.vm.get_none()));
    assert_eq!(interpreter.take_output(), vec!["(1,)".to_string()]);
    assert_eq!(interpreter.take_output(), Vec::<String>::new());
}

#[test]
fn an_interactive_session_binds_a_tuple_and_shows_its_rest() {
    let mut interpreter = Interpreter::new();
    let scope = interpreter.new_scope();
    let n = ints(&mut interpreter, &[1, 2, 3]);
    // x = (1, 2, 3)
    let first = module(
        &mut interpreter,
        vec![konst(n[0]), konst(n[1]), konst(n[2]), BuildTuple { size: 3 }, store("x")],
    );
    assert_eq!(run(&mut interpreter, first, scope), Ok(interpreter.vm.get_none()));
    assert_eq!(interpreter.take_output(), Vec::<String>::new());
    // x[1:]
    let rest = interpreter.vm.ctx.new_slice(Some(1), None, None);
    let second = module(&mut interpreter, vec![load("x"), konst(rest), Subscript, PrintExpr]);
    assert_eq!(run(&mut interpreter, second, scope), Ok(interpreter.vm.get_none()));
    assert_eq!(interpreter.take_output(), vec!["(2, 3)".to_string()]);
}

#[test]
fn none_is_not_shown() {
    let mut interpreter = Interpreter::new();
    let none = interpreter.vm.get_none();
    assert_eq!(run_module(&mut interpreter, vec![konst(none), PrintExpr]), Ok(none));
    assert_eq!(interpreter.take_output(), Vec::<String>::new());
}

#[test]
fn a_value_is_returned_to_the_driver() {
    let mut interpreter = Interpreter::new();
    let n = ints(&mut interpreter, &[7, 8]);
    assert_eq!(run_module(&mut interpreter, vec![konst(n[0]), konst(n[1]), Pop, ReturnValue]), Ok(n[0]));
}

#[test]
fn nothing_to_run_is_idle() {
    let mut interpreter = Interpreter::new();
    assert!(interpreter.is_idle());
    assert_eq!(interpreter.step(), Progress::Idle);
    assert_eq!(interpreter.get_builtin_scope(), ScopeRef { index: 0 });
}

#[test]
fn a_function_is_called_with_its_arguments_bound() {
    let mut interpreter = Interpreter::new();
    let n = ints(&mut interpreter, &[1, 2]);
    let pair = add(
        &mut interpreter,
        block("pair", &["a", "b"], vec![load("b"), load("a"), BuildTuple { size: 2 }, ReturnValue], vec![]),
    );
    let result = run_module(
        &mut interpreter,
        vec![
            MakeFunction { code: pair },
            store("pair"),
            load("pair"),
            konst(n[0]),
            konst(n[1]),
            CallFunction { count: 2 },
            ReturnValue,
        ],
    )
    .unwrap();
    assert_eq!(kind(&interpreter, result), PyObjectKind::Tuple { elements: vec![n[1], n[0]] });
}

#[test]
fn a_function_sees_the_scope_it_was_defined_in_at_the_time_of_the_call() {
    let mut interpreter = Interpreter::new();
    let n = ints(&mut interpreter, &[1, 2]);
    let get = add(&mut interpreter, block("get", &[], vec![load("x"), ReturnValue], vec![]));
    let result = run_module(
        &mut interpreter,
        vec![
            konst(n[0]),
            store("x"),
            MakeFunction { code: get },
            store("get"),
            konst(n[1]),
            store("x"),
            load("get"),
            CallFunction { count: 0 },
            ReturnValue,
        ],
    );
    assert_eq!(result, Ok(n[1]));
}

#[test]
fn the_names_of_a_call_do_not_leak_into_the_caller() {
    let mut interpreter = Interpreter::new();
    let n = ints(&mut interpreter, &[1, 2]);
    let set = add(&mut interpreter, block("set", &["a"], vec![load("a"), store("x"), load("x"), ReturnValue], vec![]));
    let scope = interpreter.new_scope();
    let main = module(
        &mut interpreter,
        vec![
            konst(n[0]),
            store("x"),
            MakeFunction { code: set },
            konst(n[1]),
            CallFunction { count: 1 },
            ReturnValue,
        ],
    );
    assert_eq!(run(&mut interpreter, main, scope), Ok(n[1]));
    assert_eq!(find_name(&interpreter.vm.ctx, scope, "x"), Some(n[0]));
    assert_eq!(find_name(&interpreter.vm.ctx, scope, "a"), None);
}

#[test]
fn a_wrong_number_of_arguments_is_a_type_error_that_names_the_function() {
    let mut interpreter = Interpreter::new();
    let n = ints(&mut interpreter, &[1]);
    let pair = add(&mut interpreter, block("pair", &["a", "b"], vec![load("a"), ReturnValue], vec![]));
    let e = run_module(
        &mut interpreter,
        vec![MakeFunction { code: pair }, konst(n[0]), CallFunction { count: 1 }, ReturnValue],
    )
    .unwrap_err();
    assert_eq!(e.kind, ExceptionKind::TypeError);
    assert_eq!(e.message, "pair() missing required argument: 'b'");
    let e = run_module(
        &mut interpreter,
        vec![
            MakeFunction { code: pair },
            konst(n[0]),
            konst(n[0]),
            konst(n[0]),
            CallFunction { count: 3 },
            ReturnValue,
        ],
    )
    .unwrap_err();
    assert_eq!(e.message, "pair() takes 2 positional arguments but 3 were given");
}

#[test]
fn calling_what_is_no_function_is_a_type_error() {
    let mut interpreter = Interpreter::new();
    let n = ints(&mut interpreter, &[1]);
    let e = run_module(&mut interpreter, vec![konst(n[0]), CallFunction { count: 0 }, ReturnValue]).unwrap_err();
    assert_eq!((e.kind, e.message.as_str()), (ExceptionKind::TypeError, "object is not callable"));
}

#[test]
fn a_native_function_is_called_at_once() {
    let mut interpreter = Interpreter::new();
    let n = ints(&mut interpreter, &[1, 2, 3]);
    let t = interpreter.vm.ctx.new_tuple(n);
    let result = run_module(
        &mut interpreter,
        vec![
            konst(t),
            LoadAttr { name: "__len__".to_string() },
            konst(t),
            CallFunction { count: 1 },
            ReturnValue,
        ],
    )
    .unwrap();
    assert_eq!(kind(&interpreter, result), PyObjectKind::Integer { value: 3 });
}

#[test]
fn equality_goes_through_the_special_method() {
    let mut interpreter = Interpreter::new();
    let a = ints(&mut interpreter, &[1, 2]);
    let b = ints(&mut interpreter, &[1, 2]);
    let c = ints(&mut interpreter, &[1, 3]);
    let ta = interpreter.vm.ctx.new_tuple(a);
    let tb = interpreter.vm.ctx.new_tuple(b);
    let tc = interpreter.vm.ctx.new_tuple(c);
    let same = run_module(&mut interpreter, vec![konst(ta), konst(tb), CompareEq, ReturnValue]).unwrap();
    assert_eq!(kind(&interpreter, same), PyObjectKind::Boolean { value: true });
    let other = run_module(&mut interpreter, vec![konst(ta), konst(tc), CompareEq, ReturnValue]).unwrap();
    assert_eq!(kind(&interpreter, other), PyObjectKind::Boolean { value: false });
}

#[test]
fn a_jump_is_taken_when_the_condition_is_false() {
    let mut interpreter = Interpreter::new();
    let n = ints(&mut interpreter, &[0, 1, 10, 20]);
    let choose = |condition: ObjRef| {
        vec![
            konst(condition),
            JumpIfFalse { target: 4 },
            konst(n[2]),
            Jump { target: 5 },
            konst(n[3]),
            ReturnValue,
        ]
    };
    assert_eq!(run_module(&mut interpreter, choose(n[1])), Ok(n[2]));
    assert_eq!(run_module(&mut interpreter, choose(n[0])), Ok(n[3]));
    let none = interpreter.vm.get_none();
    assert_eq!(run_module(&mut interpreter, choose(none)), Ok(n[3]));
}

#[test]
fn a_jump_to_the_end_returns_none() {
    let mut interpreter = Interpreter::new();
    let none = interpreter.vm.get_none();
    assert_eq!(run_module(&mut interpreter, vec![Jump { target: 1 }]), Ok(none));
    assert_eq!(run_module(&mut interpreter, vec![]), Ok(none));
}

#[test]
fn attributes_are_loaded_and_stored() {
    let mut interpreter = Interpreter::new();
    let m = interpreter.vm.ctx.new_module("m");
    let n = ints(&mut interpreter, &[5]);
    let result = run_module(
        &mut interpreter,
        vec![
            konst(n[0]),
            konst(m),
            StoreAttr { name: "x".to_string() },
            konst(m),
            LoadAttr { name: "x".to_string() },
            ReturnValue,
        ],
    );
    assert_eq!(result, Ok(n[0]));
    let e = run_module(&mut interpreter, vec![konst(m), LoadAttr { name: "y".to_string() }, ReturnValue])
        .unwrap_err();
    assert_eq!(e.message, "'module' object has no attribute 'y'");
    let e = run_module(
        &mut interpreter,
        vec![konst(m), konst(n[0]), StoreAttr { name: "x".to_string() }],
    )
    .unwrap_err();
    assert_eq!(e.message, "'int' object has no attribute 'x'");
}

fn region(start: usize, end: usize, handler: usize, depth: usize, name: Option<&str>) -> ExceptionRegion {
    ExceptionRegion { start, end, handler, depth, name: name.map(|n| n.to_string()) }
}

#[test]
fn an_exception_is_caught_by_the_region_that_covers_it() {
    let mut interpreter = Interpreter::new();
    let n = ints(&mut interpreter, &[1, 2, 3]);
    let scope = interpreter.new_scope();
    // Two values are on the stack when the lookup of an unbound name fails;
    // the handler resumes with one of them and the exception bound to `e`.
    let code = add(
        &mut interpreter,
        block(
            "<module>",
            &[],
            vec![konst(n[0]), konst(n[1]), load("ghost"), ReturnValue, BuildTuple { size: 1 }, ReturnValue],
            vec![region(2, 3, 4, 1, Some("e"))],
        ),
    );
    let result = run(&mut interpreter, code, scope).unwrap();
    assert_eq!(kind(&interpreter, result), PyObjectKind::Tuple { elements: vec![n[0]] });
    let e = find_name(&interpreter.vm.ctx, scope, "e").unwrap();
    assert_eq!(
        kind(&interpreter, e),
        PyObjectKind::Exception {
            exception: Exception::with_message(ExceptionKind::AttributeError, "name 'ghost' is not defined")
        }
    );
}

#[test]
fn a_handler_need_not_bind_the_exception() {
    let mut interpreter = Interpreter::new();
    let n = ints(&mut interpreter, &[1]);
    let scope = interpreter.new_scope();
    let code = add(
        &mut interpreter,
        block("<module>", &[], vec![load("ghost"), konst(n[0]), ReturnValue], vec![region(0, 1, 1, 0, None)]),
    );
    let objects = interpreter.vm.ctx.len();
    assert_eq!(run(&mut interpreter, code, scope), Ok(n[0]));
    assert_eq!(interpreter.vm.ctx.len(), objects);
}

#[test]
fn a_region_that_does_not_cover_the_fault_does_not_catch_it() {
    let mut interpreter = Interpreter::new();
    let n = ints(&mut interpreter, &[1]);
    let scope = interpreter.new_scope();
    let code = add(
        &mut interpreter,
        block(
            "<module>",
            &[],
            vec![konst(n[0]), Pop, load("ghost"), ReturnValue],
            vec![region(0, 2, 3, 0, None), region(3, 4, 3, 0, None)],
        ),
    );
    let e = run(&mut interpreter, code, scope).unwrap_err();
    assert_eq!(e.kind, ExceptionKind::AttributeError);
    assert!(interpreter.is_idle());
}

#[test]
fn the_first_region_that_covers_the_fault_handles_it() {
    let regions = vec![region(5, 9, 1, 0, None), region(2, 4, 2, 0, None), region(0, 9, 3, 0, None)];
    assert_eq!(find_handler(&regions, 0), Some(2));
    assert_eq!(find_handler(&regions, 2), Some(1));
    assert_eq!(find_handler(&regions, 3), Some(1));
    assert_eq!(find_handler(&regions, 4), Some(2));
    assert_eq!(find_handler(&regions, 5), Some(0));
    assert_eq!(find_handler(&regions, 9), None);
    assert_eq!(find_handler(&vec![], 0), None);
}

#[test]
fn an_exception_unwinds_to_the_caller_that_handles_it() {
    let mut interpreter = Interpreter::new();
    let n = ints(&mut interpreter, &[1, 2]);
    let inner = add(&mut interpreter, block("inner", &[], vec![konst(n[0]), load("ghost"), ReturnValue], vec![]));
    let outer = add(
        &mut interpreter,
        block("outer", &[], vec![MakeFunction { code: inner }, CallFunction { count: 0 }, ReturnValue], vec![]),
    );
    let scope = interpreter.new_scope();
    let main = add(
        &mut interpreter,
        block(
            "<module>",
            &[],
            vec![
                konst(n[1]),
                MakeFunction { code: outer },
                CallFunction { count: 0 },
                ReturnValue,
                load("caught"),
                ReturnValue,
            ],
            vec![region(1, 3, 4, 0, Some("caught"))],
        ),
    );
    let result = run(&mut interpreter, main, scope).unwrap();
    match kind(&interpreter, result) {
        PyObjectKind::Exception { exception } => {
            assert_eq!(exception.kind, ExceptionKind::AttributeError);
            assert_eq!(exception.message, "name 'ghost' is not defined");
        }
        other => panic!("not an exception: {:?}", other),
    }
}

#[test]
fn an_exception_that_no_frame_handles_reaches_the_driver() {
    let mut interpreter = Interpreter::new();
    let inner = add(&mut interpreter, block("inner", &[], vec![load("ghost"), ReturnValue], vec![]));
    let e = run_module(&mut interpreter, vec![MakeFunction { code: inner }, CallFunction { count: 0 }, ReturnValue])
        .unwrap_err();
    assert_eq!(e, Exception::with_message(ExceptionKind::AttributeError, "name 'ghost' is not defined"));
    assert!(interpreter.is_idle());
    // The interpreter runs again after a failure.
    let one = interpreter.vm.ctx.new_int(1);
    assert_eq!(run_module(&mut interpreter, vec![konst(one), ReturnValue]), Ok(one));
}

#[test]
fn an_exception_object_is_raised_again() {
    let mut interpreter = Interpreter::new();
    let raised = Exception::with_message(ExceptionKind::IndexError, "again");
    let obj = interpreter.vm.ctx.new_exception(raised.clone());
    assert_eq!(run_module(&mut interpreter, vec![konst(obj), Raise]), Err(raised));
    let one = interpreter.vm.ctx.new_int(1);
    let e = run_module(&mut interpreter, vec![konst(one), Raise]).unwrap_err();
    assert_eq!((e.kind, e.message.as_str()), (ExceptionKind::TypeError, "exceptions must be exception objects"));
}

#[test]
fn subscription_failures_are_raised() {
    let mut interpreter = Interpreter::new();
    let n = ints(&mut interpreter, &[1, 2, 3, 4, 5]);
    let t = interpreter.vm.ctx.new_tuple(n);
    let five = interpreter.vm.ctx.new_int(5);
    let e = run_module(&mut interpreter, vec![konst(t), konst(five), Subscript, ReturnValue]).unwrap_err();
    assert_eq!(e.kind, ExceptionKind::IndexError);
    let reversed = interpreter.vm.ctx.new_slice(None, None, Some(-1));
    let e = run_module(&mut interpreter, vec![konst(t), konst(reversed), Subscript, ReturnValue]).unwrap_err();
    assert_eq!(e.kind, ExceptionKind::UnsupportedOperation);
    let s = interpreter.vm.ctx.new_str("hello".to_string());
    let r = run_module(&mut interpreter, vec![konst(s), konst(reversed), Subscript, ReturnValue]);
    assert_eq!(r.unwrap_err().kind, ExceptionKind::UnsupportedOperation);
    let last = interpreter.vm.ctx.new_int(-1);
    let r = run_module(&mut interpreter, vec![konst(s), konst(last), Subscript, ReturnValue]).unwrap();
    assert_eq!(objstr::get_value(&interpreter.vm.ctx, r), "o");
}

#[test]
fn too_few_operands_are_a_defect_of_the_code() {
    let mut interpreter = Interpreter::new();
    let one = interpreter.vm.ctx.new_int(1);
    for instructions in [
        vec![Pop],
        vec![ReturnValue],
        vec![store("x")],
        vec![konst(one), Subscript],
        vec![konst(one), CompareEq],
        vec![konst(one), BuildTuple { size: 2 }],
        vec![konst(one), CallFunction { count: 1 }],
        vec![CallFunction { count: 0 }],
        vec![konst(one), StoreAttr { name: "x".to_string() }],
        vec![LoadAttr { name: "x".to_string() }],
        vec![JumpIfFalse { target: 0 }],
        vec![Raise],
        vec![PrintExpr],
    ] {
        let e = run_module(&mut interpreter, instructions).unwrap_err();
        assert_eq!((e.kind, e.message.as_str()), (ExceptionKind::CompileError, "operand stack underflow"));
    }
}

#[test]
fn malformed_code_is_refused() {
    let mut interpreter = Interpreter::new();
    let objects = interpreter.vm.ctx.len();
    let refused = |interpreter: &mut Interpreter, code: CodeObject| {
        let codes = interpreter.vm.ctx.code_count();
        let e = interpreter.vm.ctx.add_code(code).unwrap_err();
        assert_eq!((e.kind, e.message.as_str()), (ExceptionKind::CompileError, "malformed code object"));
        assert_eq!(interpreter.vm.ctx.code_count(), codes);
    };
    refused(&mut interpreter, block("f", &[], vec![Jump { target: 2 }], vec![]));
    refused(&mut interpreter, block("f", &[], vec![JumpIfFalse { target: 9 }], vec![]));
    refused(&mut interpreter, block("f", &[], vec![konst(ObjRef { index: objects })], vec![]));
    refused(&mut interpreter, block("f", &[], vec![MakeFunction { code: CodeRef { index: 0 } }], vec![]));
    refused(&mut interpreter, block("f", &["a", "b", "a"], vec![], vec![]));
    refused(&mut interpreter, block("f", &[], vec![Pop], vec![region(1, 0, 0, 0, None)]));
    refused(&mut interpreter, block("f", &[], vec![Pop], vec![region(0, 2, 0, 0, None)]));
    refused(&mut interpreter, block("f", &[], vec![Pop], vec![region(0, 1, 2, 0, None)]));
    assert!(interpreter.vm.ctx.add_code(block("f", &["a", "b"], vec![Jump { target: 1 }], vec![region(0, 1, 1, 7, None)])).is_ok());
}

#[test]
fn a_new_frame_starts_at_the_first_instruction() {
    let frame = Frame::new(CodeRef { index: 2 }, ScopeRef { index: 3 });
    assert_eq!(
        frame,
        Frame { code: CodeRef { index: 2 }, scope: ScopeRef { index: 3 }, ip: 0, stack: vec![], state: FrameState::Running }
    );
}

#[test]
fn catching_cuts_the_operand_stack_to_the_recorded_depth() {
    let r = |i| ObjRef { index: i };
    let mut frame = Frame::new(CodeRef { index: 0 }, ScopeRef { index: 0 });
    frame.stack = vec![r(1), r(2), r(3)];
    frame.ip = 7;
    frame.state = FrameState::Unwinding { exception: Exception::with_message(ExceptionKind::TypeError, "x") };
    frame.resume_at(&region(0, 9, 4, 1, None));
    assert_eq!((frame.ip, frame.stack.clone(), frame.state.clone()), (4, vec![r(1)], FrameState::Running));
    frame.resume_at(&region(0, 9, 5, 3, None));
    assert_eq!((frame.ip, frame.stack.clone()), (5, vec![r(1)]));
    frame.resume_at(&region(0, 9, 6, 0, None));
    assert_eq!((frame.ip, frame.stack.clone()), (6, vec![]));
}

#[test]
fn the_builtin_scope_encloses_every_module_scope() {
    let mut interpreter = Interpreter::new();
    let one = interpreter.vm.ctx.new_int(1);
    let builtins = interpreter.get_builtin_scope();
    store_name(&mut interpreter.vm.ctx, builtins, "answer", one);
    assert_eq!(run_module(&mut interpreter, vec![load("answer"), ReturnValue]), Ok(one));
    let get = add(&mut interpreter, block("get", &[], vec![load("answer"), ReturnValue], vec![]));
    assert_eq!(
        run_module(&mut interpreter, vec![MakeFunction { code: get }, CallFunction { count: 0 }, ReturnValue]),
        Ok(one)
    );
}
