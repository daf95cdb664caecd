use rustpython_vm::exceptions::ExceptionKind;
use rustpython_vm::obj::objint;
use rustpython_vm::obj::objstr::{get_value, subscript};
use rustpython_vm::pyobject::{ObjRef, PyObjectKind};
use rustpython_vm::vm::VirtualMachine;

fn sub(vm: &mut VirtualMachine, value: &str, index: ObjRef) -> Result<String, (ExceptionKind, String)> {
    match subscript(vm, &value.to_string(), index) {
        Ok(r) => Ok(get_value(&vm.ctx, r)),
        Err(e) => Err((e.kind, e.message)),
    }
}

#[test]
fn string_item_is_a_one_character_string() {
    let mut vm = VirtualMachine::new();
    let i = vm.ctx.new_int(1);
    assert_eq!(sub(&mut vm, "hello", i), Ok("e".to_string()));
    let i = vm.ctx.new_int(-1);
    assert_eq!(sub(&mut vm, "hello", i), Ok("o".to_string()));
    let i = vm.ctx.new_int(-5);
    assert_eq!(sub(&mut vm, "hello", i), Ok("h".to_string()));
}

#[test]
fn string_item_counts_characters_not_bytes() {
    let mut vm = VirtualMachine::new();
    let i = vm.ctx.new_int(1);
    assert_eq!(sub(&mut vm, "h\u{e9}llo", i), Ok("\u{e9}".to_string()));
    let i = vm.ctx.new_int(2);
    assert_eq!(sub(&mut vm, "h\u{e9}llo", i), Ok("l".to_string()));
    let i = vm.ctx.new_int(5);
    assert_eq!(
        sub(&mut vm, "h\u{e9}llo", i),
        Err((ExceptionKind::IndexError, "string index out of range".to_string()))
    );
}

#[test]
fn string_item_out_of_range() {
    let mut vm = VirtualMachine::new();
    for bad in [5, -6, 100] {
        let i = vm.ctx.new_int(bad);
        assert_eq!(
            sub(&mut vm, "hello", i),
            Err((ExceptionKind::IndexError, "string index out of range".to_string()))
        );
    }
    let i = vm.ctx.new_int(0);
    assert_eq!(
        sub(&mut vm, "", i),
        Err((ExceptionKind::IndexError, "string index out of range".to_string()))
    );
}

#[test]
fn whole_slice_of_a_string_is_the_string() {
    let mut vm = VirtualMachine::new();
    let s = vm.ctx.new_slice(None, None, None);
    assert_eq!(sub(&mut vm, "hello", s), Ok("hello".to_string()));
    assert_eq!(sub(&mut vm, "", s), Ok("".to_string()));
}

#[test]
fn contiguous_slices_of_a_string() {
    let mut vm = VirtualMachine::new();
    let s = vm.ctx.new_slice(Some(1), Some(3), None);
    assert_eq!(sub(&mut vm, "hello", s), Ok("el".to_string()));
    let s = vm.ctx.new_slice(Some(1), None, Some(1));
    assert_eq!(sub(&mut vm, "hello", s), Ok("ello".to_string()));
    let s = vm.ctx.new_slice(None, Some(-1), None);
    assert_eq!(sub(&mut vm, "hello", s), Ok("hell".to_string()));
    let s = vm.ctx.new_slice(Some(-3), Some(5), None);
    assert_eq!(sub(&mut vm, "hello", s), Ok("llo".to_string()));
    let s = vm.ctx.new_slice(Some(3), Some(1), None);
    assert_eq!(sub(&mut vm, "hello", s), Ok("".to_string()));
}

#[test]
fn every_second_character() {
    let mut vm = VirtualMachine::new();
    let s = vm.ctx.new_slice(None, None, Some(2));
    assert_eq!(sub(&mut vm, "hello", s), Ok("hlo".to_string()));
    let s = vm.ctx.new_slice(Some(1), None, Some(2));
    assert_eq!(sub(&mut vm, "hello", s), Ok("el".to_string()));
    let s = vm.ctx.new_slice(Some(1), Some(4), Some(3));
    assert_eq!(sub(&mut vm, "hello", s), Ok("e".to_string()));
}

#[test]
fn reversed_string_is_unsupported() {
    let mut vm = VirtualMachine::new();
    let s = vm.ctx.new_slice(None, None, Some(-1));
    let before = vm.ctx.len();
    assert_eq!(
        sub(&mut vm, "hello", s),
        Err((ExceptionKind::UnsupportedOperation, "negative step indexing not yet supported".to_string()))
    );
    assert_eq!(vm.ctx.len(), before);
}

#[test]
fn string_slice_errors() {
    let mut vm = VirtualMachine::new();
    let s = vm.ctx.new_slice(None, Some(6), None);
    assert_eq!(
        sub(&mut vm, "hello", s),
        Err((ExceptionKind::IndexError, "slice index out of range".to_string()))
    );
    let s = vm.ctx.new_slice(None, None, Some(0));
    assert_eq!(
        sub(&mut vm, "hello", s),
        Err((ExceptionKind::IndexError, "slice step cannot be zero".to_string()))
    );
}

#[test]
fn string_subscript_must_be_an_integer_or_a_slice() {
    let mut vm = VirtualMachine::new();
    let s = vm.ctx.new_str("1".to_string());
    assert_eq!(
        sub(&mut vm, "hello", s),
        Err((ExceptionKind::TypeError, "string indices must be integers or slices".to_string()))
    );
    let none = vm.get_none();
    assert!(sub(&mut vm, "hello", none).is_err());
}

#[test]
fn subscript_makes_a_new_string_object() {
    let mut vm = VirtualMachine::new();
    let i = vm.ctx.new_int(0);
    let before = vm.ctx.len();
    let r = subscript(&mut vm, &"abc".to_string(), i).unwrap();
    assert_eq!(r.index, before);
    assert_eq!(vm.ctx.len(), before + 1);
    assert_eq!(vm.ctx.kind_of(r), &PyObjectKind::String { value: "a".to_string() });
}

#[test]
fn decimal_text_of_integers() {
    assert_eq!(objint::decimal_text(0), "0");
    assert_eq!(objint::decimal_text(7), "7");
    assert_eq!(objint::decimal_text(10), "10");
    assert_eq!(objint::decimal_text(-1), "-1");
    assert_eq!(objint::decimal_text(1234567890), "1234567890");
    assert_eq!(objint::decimal_text(i64::MAX), "9223372036854775807");
    assert_eq!(objint::decimal_text(i64::MIN), "-9223372036854775808");
    assert_eq!(objint::count_text(0), "0");
    assert_eq!(objint::count_text(4096), "4096");
}

#[test]
fn representations_of_integers_and_strings() {
    let mut vm = VirtualMachine::new();
    let n = vm.ctx.new_int(-42);
    let r = vm.to_repr(n).unwrap();
    assert_eq!(get_value(&vm.ctx, r), "-42");
    let s = vm.ctx.new_str("it".to_string());
    let r = vm.to_repr(s).unwrap();
    assert_eq!(get_value(&vm.ctx, r), "'it'");
}

#[test]
fn representation_by_default_names_the_type() {
    let mut vm = VirtualMachine::new();
    let none = vm.get_none();
    let r = vm.to_repr(none).unwrap();
    assert_eq!(get_value(&vm.ctx, r), "<NoneType object>");
    let l = vm.ctx.new_list(vec![]);
    let r = vm.to_repr(l).unwrap();
    assert_eq!(get_value(&vm.ctx, r), "<list object>");
}

#[test]
fn equality_of_integers_and_strings() {
    let mut vm = VirtualMachine::new();
    let a = vm.ctx.new_int(3);
    let b = vm.ctx.new_int(3);
    let c = vm.ctx.new_int(4);
    let s = vm.ctx.new_str("3".to_string());
    let t = vm.ctx.new_str("3".to_string());
    let truth = |vm: &mut VirtualMachine, x: ObjRef, y: ObjRef| {
        let r = vm.call_method(x, "__eq__", vec![y]).unwrap();
        vm.ctx.kind_of(r).clone()
    };
    assert_eq!(truth(&mut vm, a, b), PyObjectKind::Boolean { value: true });
    assert_eq!(truth(&mut vm, a, c), PyObjectKind::Boolean { value: false });
    assert_eq!(truth(&mut vm, a, s), PyObjectKind::Boolean { value: false });
    assert_eq!(truth(&mut vm, s, t), PyObjectKind::Boolean { value: true });
    assert_eq!(truth(&mut vm, s, a), PyObjectKind::Boolean { value: false });
}

#[test]
fn equality_by_default_is_identity() {
    let mut vm = VirtualMachine::new();
    let l1 = vm.ctx.new_list(vec![]);
    let l2 = vm.ctx.new_list(vec![]);
    let r = vm.call_method(l1, "__eq__", vec![l1]).unwrap();
    assert_eq!(vm.ctx.kind_of(r), &PyObjectKind::Boolean { value: true });
    let r = vm.call_method(l1, "__eq__", vec![l2]).unwrap();
    assert_eq!(vm.ctx.kind_of(r), &PyObjectKind::Boolean { value: false });
}
