use rustpython_vm::attrs::AttrTable;
use rustpython_vm::bytecode::CodeObject;
use rustpython_vm::exceptions::ExceptionKind;
use rustpython_vm::import::import_module;
use rustpython_vm::obj::objtype;
use rustpython_vm::pyobject::{
    DictEntry, NativeFn, ObjRef, PyContext, PyFuncArgs, PyObjectKind, BOOL_TYPE, BUILTIN_COUNT, DICT_TYPE,
    EXCEPTION_TYPE, FLOAT_TYPE, FUNCTION_TYPE, INT_TYPE, LIST_TYPE, MODULE_TYPE, NATIVE_FUNCTION_TYPE, NONE_OBJECT,
    NONE_TYPE, OBJECT_TYPE, SLICE_TYPE, STR_TYPE, TUPLE_TYPE, TYPE_TYPE,
};
use rustpython_vm::stdlib::types::{mk_module, types_new_class};
use rustpython_vm::vm::{get_attribute, set_attribute, VirtualMachine};

fn new_class(vm: &mut VirtualMachine, name: &str, bases: Option<Vec<ObjRef>>) -> Result<ObjRef, (ExceptionKind, String)> {
    let name = vm.ctx.new_str(name.to_string());
    let mut args = vec![name];
    if let Some(bases) = bases {
        args.push(vm.ctx.new_tuple(bases));
    }
    types_new_class(vm, PyFuncArgs::new(args)).map_err(|e| (e.kind, e.message))
}

fn mro(vm: &VirtualMachine, class: ObjRef) -> Vec<ObjRef> {
    match vm.ctx.kind_of(class) {
        PyObjectKind::Type { mro, .. } => {
            let mut order = vec![class];
            order.extend(mro.iter().cloned());
            order
        }
        other => panic!("not a type: {:?}", other),
    }
}

fn bases(vm: &VirtualMachine, class: ObjRef) -> Vec<ObjRef> {
    match vm.ctx.kind_of(class) {
        PyObjectKind::Type { bases, .. } => bases.clone(),
        other => panic!("not a type: {:?}", other),
    }
}

const ROOT: ObjRef = ObjRef { index: OBJECT_TYPE };

#[test]
fn bases_that_are_no_tuple_are_a_type_error() {
    let mut vm = VirtualMachine::new();
    let name = vm.ctx.new_str("A".to_string());
    let not_a_tuple = vm.ctx.new_int(3);
    let before = vm.ctx.len();
    let e = types_new_class(&mut vm, PyFuncArgs::new(vec![name, not_a_tuple])).unwrap_err();
    assert_eq!(e.kind, ExceptionKind::TypeError);
    assert_eq!(e.message, "Bases must be a tuple");
    assert_eq!(vm.ctx.len(), before);
    let list = vm.ctx.new_list(vec![ROOT]);
    let e = types_new_class(&mut vm, PyFuncArgs::new(vec![name, list])).unwrap_err();
    assert_eq!(e.message, "Bases must be a tuple");
}

#[test]
fn empty_bases_give_the_root_alone() {
    let mut vm = VirtualMachine::new();
    let a = new_class(&mut vm, "A", Some(vec![])).unwrap();
    assert_eq!(mro(&vm, a), vec![a, ROOT]);
    assert_eq!(bases(&vm, a), vec![ROOT]);
}

#[test]
fn absent_bases_give_the_root_alone() {
    let mut vm = VirtualMachine::new();
    let a = new_class(&mut vm, "A", None).unwrap();
    assert_eq!(mro(&vm, a), vec![a, ROOT]);
    assert_eq!(bases(&vm, a), vec![ROOT]);
    match vm.ctx.kind_of(a) {
        PyObjectKind::Type { name, .. } => assert_eq!(name, "A"),
        _ => unreachable!(),
    }
    assert_eq!(vm.ctx.type_of(a), vm.ctx.type_type());
}

#[test]
fn single_inheritance_extends_the_order_of_the_base() {
    let mut vm = VirtualMachine::new();
    let a = new_class(&mut vm, "A", None).unwrap();
    let b = new_class(&mut vm, "B", Some(vec![a])).unwrap();
    let c = new_class(&mut vm, "C", Some(vec![b])).unwrap();
    assert_eq!(mro(&vm, b), vec![b, a, ROOT]);
    assert_eq!(mro(&vm, c), vec![c, b, a, ROOT]);
}

#[test]
fn bases_are_linearized_left_to_right_with_the_root_last() {
    let mut vm = VirtualMachine::new();
    let a = new_class(&mut vm, "A", None).unwrap();
    let b = new_class(&mut vm, "B", None).unwrap();
    let c = new_class(&mut vm, "C", Some(vec![a, b])).unwrap();
    assert_eq!(mro(&vm, c), vec![c, a, b, ROOT]);
    let d = new_class(&mut vm, "D", Some(vec![b, a])).unwrap();
    assert_eq!(mro(&vm, d), vec![d, b, a, ROOT]);
}

#[test]
fn a_type_is_listed_once_at_its_first_occurrence() {
    let mut vm = VirtualMachine::new();
    let a = new_class(&mut vm, "A", None).unwrap();
    let b = new_class(&mut vm, "B", Some(vec![a])).unwrap();
    let c = new_class(&mut vm, "C", Some(vec![a])).unwrap();
    let d = new_class(&mut vm, "D", Some(vec![b, c])).unwrap();
    assert_eq!(mro(&vm, d), vec![d, b, a, c, ROOT]);
    let e = new_class(&mut vm, "E", Some(vec![a, a, ROOT, b])).unwrap();
    assert_eq!(mro(&vm, e), vec![e, a, b, ROOT]);
}

#[test]
fn a_base_that_is_no_type_is_a_type_error() {
    let mut vm = VirtualMachine::new();
    let n = vm.ctx.new_int(1);
    assert_eq!(
        new_class(&mut vm, "A", Some(vec![ROOT, n])),
        Err((ExceptionKind::TypeError, "Bases must be types".to_string()))
    );
}

#[test]
fn the_name_of_a_class_must_be_a_string() {
    let mut vm = VirtualMachine::new();
    let n = vm.ctx.new_int(1);
    let e = types_new_class(&mut vm, PyFuncArgs::new(vec![n])).unwrap_err();
    assert_eq!(e.kind, ExceptionKind::TypeError);
    assert_eq!(e.message, "argument of incorrect type");
    let e = types_new_class(&mut vm, PyFuncArgs::new(vec![])).unwrap_err();
    assert_eq!(e.message, "Expected at least 1 arguments (got: 0)");
    let s = vm.ctx.new_str("A".to_string());
    let t = vm.ctx.new_tuple(vec![]);
    let e = types_new_class(&mut vm, PyFuncArgs::new(vec![s, t, t, t, t])).unwrap_err();
    assert_eq!(e.message, "Expected at most 4 arguments (got: 5)");
    assert!(types_new_class(&mut vm, PyFuncArgs::new(vec![s, t, t, t])).is_ok());
}

#[test]
fn objtype_new_takes_the_namespace_as_the_attributes() {
    let mut vm = VirtualMachine::new();
    let v = vm.ctx.new_int(7);
    let mut dict = AttrTable::new();
    dict.insert("x".to_string(), v);
    let a = objtype::new(&mut vm.ctx, "A", vec![ROOT], dict).unwrap();
    assert_eq!(vm.ctx.get_attr(a, "x"), Some(v));
    assert_eq!(get_attribute(&vm.ctx, a, "x"), Ok(v));
    assert_eq!(mro(&vm, a), vec![a, ROOT]);
    let n = vm.ctx.new_int(1);
    let before = vm.ctx.len();
    let e = objtype::new(&mut vm.ctx, "B", vec![n], AttrTable::new()).unwrap_err();
    assert_eq!(e.kind, ExceptionKind::TypeError);
    assert_eq!(vm.ctx.len(), before);
}

#[test]
fn isinstance_goes_by_the_resolution_order_of_the_type() {
    let mut vm = VirtualMachine::new();
    let n = vm.ctx.new_int(1);
    let t = vm.ctx.new_tuple(vec![n]);
    let a = new_class(&mut vm, "A", None).unwrap();
    assert!(objtype::isinstance(&vm.ctx, n, vm.ctx.int_type()));
    assert!(objtype::isinstance(&vm.ctx, n, ROOT));
    assert!(!objtype::isinstance(&vm.ctx, n, vm.ctx.tuple_type()));
    assert!(objtype::isinstance(&vm.ctx, t, vm.ctx.tuple_type()));
    assert!(!objtype::isinstance(&vm.ctx, t, vm.ctx.int_type()));
    assert!(objtype::isinstance(&vm.ctx, a, vm.ctx.type_type()));
    assert!(objtype::isinstance(&vm.ctx, a, ROOT));
    assert!(!objtype::isinstance(&vm.ctx, a, a));
    assert!(!objtype::isinstance(&vm.ctx, n, n));
}

#[test]
fn attributes_resolve_own_table_first_then_type_then_bases() {
    let mut vm = VirtualMachine::new();
    let a = new_class(&mut vm, "A", None).unwrap();
    let one = vm.ctx.new_int(1);
    let two = vm.ctx.new_int(2);
    let three = vm.ctx.new_int(3);
    let type_type = vm.ctx.type_type();
    // Only the root binds the name: found last.
    set_attribute(&mut vm.ctx, ROOT, "x", three).unwrap();
    assert_eq!(get_attribute(&vm.ctx, a, "x"), Ok(three));
    // The type of the object binds it too: found before the root.
    set_attribute(&mut vm.ctx, type_type, "x", two).unwrap();
    assert_eq!(get_attribute(&vm.ctx, a, "x"), Ok(two));
    // The object itself binds it: found first.
    set_attribute(&mut vm.ctx, a, "x", one).unwrap();
    assert_eq!(get_attribute(&vm.ctx, a, "x"), Ok(one));
    // An integer keeps no table of its own: its type and the root decide.
    assert_eq!(get_attribute(&vm.ctx, one, "x"), Ok(three));
}

#[test]
fn a_missing_attribute_names_the_type_and_the_name() {
    let mut vm = VirtualMachine::new();
    let n = vm.ctx.new_int(1);
    let e = get_attribute(&vm.ctx, n, "nope").unwrap_err();
    assert_eq!(e.kind, ExceptionKind::AttributeError);
    assert_eq!(e.message, "'int' object has no attribute 'nope'");
    let a = new_class(&mut vm, "A", None).unwrap();
    let e = vm.get_attribute(a, "nope").unwrap_err();
    assert_eq!(e.message, "'type' object has no attribute 'nope'");
}

#[test]
fn only_types_and_modules_take_attributes() {
    let mut vm = VirtualMachine::new();
    let n = vm.ctx.new_int(1);
    let v = vm.ctx.new_int(2);
    let e = set_attribute(&mut vm.ctx, n, "x", v).unwrap_err();
    assert_eq!(e.kind, ExceptionKind::AttributeError);
    assert_eq!(e.message, "'int' object has no attribute 'x'");
    let m = vm.ctx.new_module("m");
    assert_eq!(set_attribute(&mut vm.ctx, m, "x", v), Ok(()));
    assert_eq!(get_attribute(&vm.ctx, m, "x"), Ok(v));
    assert_eq!(set_attribute(&mut vm.ctx, m, "x", n), Ok(()));
    assert_eq!(get_attribute(&vm.ctx, m, "x"), Ok(n));
}

#[test]
fn the_types_module_offers_new_class_and_function_type() {
    let mut vm = VirtualMachine::new();
    let before = vm.ctx.len();
    let m = mk_module(&mut vm.ctx);
    assert_eq!(vm.ctx.len(), before + 2);
    assert_eq!(vm.ctx.kind_of(m), &PyObjectKind::Module { name: "types".to_string() });
    let new_class = get_attribute(&vm.ctx, m, "new_class").unwrap();
    assert_eq!(
        vm.ctx.kind_of(new_class),
        &PyObjectKind::NativeFunction { function: NativeFn::TypesNewClass }
    );
    assert_eq!(get_attribute(&vm.ctx, m, "FunctionType"), Ok(ObjRef { index: FUNCTION_TYPE }));
    assert!(get_attribute(&vm.ctx, m, "ClassType").is_err());
    // The function that the module offers builds classes.
    let name = vm.ctx.new_str("A".to_string());
    let a = vm.invoke(new_class, PyFuncArgs::new(vec![name])).unwrap();
    assert_eq!(mro(&vm, a), vec![a, ROOT]);
}

#[test]
fn invoking_what_is_no_function_is_a_type_error() {
    let mut vm = VirtualMachine::new();
    let n = vm.ctx.new_int(1);
    let e = vm.invoke(n, PyFuncArgs::new(vec![])).unwrap_err();
    assert_eq!(e.kind, ExceptionKind::TypeError);
    assert_eq!(e.message, "object is not callable");
}

#[test]
fn a_function_defined_in_code_cannot_be_invoked_natively() {
    let mut vm = VirtualMachine::new();
    let scope = vm.ctx.new_scope(None);
    let code = vm
        .ctx
        .add_code(CodeObject { name: "f".to_string(), params: vec![], instructions: vec![], regions: vec![] })
        .unwrap();
    let f = vm.ctx.new_function(code, scope);
    let before = vm.ctx.len();
    let e = vm.invoke(f, PyFuncArgs::new(vec![])).unwrap_err();
    assert_eq!(e.kind, ExceptionKind::UnsupportedOperation);
    assert_eq!(e.message, "a function defined in code cannot be called from a native function");
    assert_eq!(vm.ctx.len(), before);
}

#[test]
fn the_runtime_provides_the_types_module() {
    let mut vm = VirtualMachine::new();
    let m = import_module(&mut vm.ctx, "types").unwrap();
    assert_eq!(vm.ctx.kind_of(m), &PyObjectKind::Module { name: "types".to_string() });
    assert!(get_attribute(&vm.ctx, m, "new_class").is_ok());
}

#[test]
fn a_module_that_does_not_exist_is_an_import_error() {
    let mut vm = VirtualMachine::new();
    let before = vm.ctx.len();
    for name in ["os", "", "Types", "types "] {
        let e = import_module(&mut vm.ctx, name).unwrap_err();
        assert_eq!(e.kind, ExceptionKind::ImportError);
        assert_eq!(e.message, format!("No module named '{}'", name));
    }
    assert_eq!(vm.ctx.len(), before);
}

#[test]
fn a_new_context_holds_the_built_in_types_and_none() {
    let ctx = PyContext::new();
    assert_eq!(ctx.len(), BUILTIN_COUNT);
    let names = [
        "object",
        "type",
        "int",
        "float",
        "str",
        "bool",
        "NoneType",
        "tuple",
        "list",
        "dict",
        "slice",
        "function",
        "builtin_function_or_method",
        "module",
        "exception",
    ];
    for (index, expected) in names.iter().enumerate() {
        let r = ObjRef { index };
        match ctx.kind_of(r) {
            PyObjectKind::Type { name, bases, mro } => {
                assert_eq!(name, expected);
                let after: Vec<ObjRef> = if index == OBJECT_TYPE { vec![] } else { vec![ROOT] };
                assert_eq!(mro, &after);
                assert_eq!(bases, &after);
            }
            other => panic!("not a type: {:?}", other),
        }
        assert_eq!(ctx.type_of(r), ObjRef { index: TYPE_TYPE });
        assert_eq!(ctx.get_attr(r, "__repr__"), None);
    }
    assert_eq!(ctx.kind_of(ctx.none()), &PyObjectKind::NoneValue);
    assert_eq!(ctx.none(), ObjRef { index: NONE_OBJECT });
    assert!(ctx.contains(ObjRef { index: NONE_OBJECT }));
    assert!(!ctx.contains(ObjRef { index: BUILTIN_COUNT }));
    assert_eq!((ctx.scope_count(), ctx.code_count()), (0, 0));
}

#[test]
fn every_kind_of_object_has_its_type() {
    let mut vm = VirtualMachine::new();
    let ctx = &mut vm.ctx;
    let mut expect = |ctx: &PyContext, r: ObjRef, kind: PyObjectKind, typ: usize| {
        assert_eq!(r.index + 1, ctx.len());
        assert_eq!(ctx.kind_of(r), &kind);
        assert_eq!(ctx.type_of(r), ObjRef { index: typ });
    };
    let i = ctx.new_int(-3);
    expect(ctx, i, PyObjectKind::Integer { value: -3 }, INT_TYPE);
    let f = ctx.new_float(1.5f64.to_bits());
    expect(ctx, f, PyObjectKind::Float { bits: 0x3ff8_0000_0000_0000 }, FLOAT_TYPE);
    let s = ctx.new_str("s".to_string());
    expect(ctx, s, PyObjectKind::String { value: "s".to_string() }, STR_TYPE);
    let b = ctx.new_bool(true);
    expect(ctx, b, PyObjectKind::Boolean { value: true }, BOOL_TYPE);
    let t = ctx.new_tuple(vec![i, b]);
    expect(ctx, t, PyObjectKind::Tuple { elements: vec![i, b] }, TUPLE_TYPE);
    let l = ctx.new_list(vec![t, t]);
    expect(ctx, l, PyObjectKind::List { elements: vec![t, t] }, LIST_TYPE);
    let d = ctx.new_dict();
    expect(ctx, d, PyObjectKind::Dict { entries: Vec::<DictEntry>::new() }, DICT_TYPE);
    let sl = ctx.new_slice(Some(1), None, Some(-2));
    expect(ctx, sl, PyObjectKind::Slice { start: Some(1), stop: None, step: Some(-2) }, SLICE_TYPE);
    let n = ctx.new_rustfunc(NativeFn::IntRepr);
    expect(ctx, n, PyObjectKind::NativeFunction { function: NativeFn::IntRepr }, NATIVE_FUNCTION_TYPE);
    let m = ctx.new_module("m");
    expect(ctx, m, PyObjectKind::Module { name: "m".to_string() }, MODULE_TYPE);
    let raised = rustpython_vm::exceptions::Exception::with_message(ExceptionKind::IndexError, "x").caused_by(i);
    let e = ctx.new_exception(raised.clone());
    expect(ctx, e, PyObjectKind::Exception { exception: raised }, EXCEPTION_TYPE);
    assert_eq!(ctx.type_of(ctx.none()), ObjRef { index: NONE_TYPE });
    assert_eq!(ctx.get_attr(e, "anything"), None);
}
