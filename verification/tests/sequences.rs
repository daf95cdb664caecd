use rustpython_vm::exceptions::ExceptionKind;
use rustpython_vm::obj::objsequence::{get_bound, get_item, get_pos, get_slice_items, get_slice_range, slice_positions, SliceRange};
use rustpython_vm::obj::objstr;
use rustpython_vm::pyobject::{ObjRef, PyObjectKind};
use rustpython_vm::vm::VirtualMachine;

fn refs(indices: &[usize]) -> Vec<ObjRef> {
    indices.iter().map(|i| ObjRef { index: *i }).collect()
}

#[test]
fn negative_one_names_the_last_of_five() {
    assert_eq!(get_pos(5, -1), Some(4));
}

#[test]
fn five_and_minus_six_name_nothing_in_five() {
    assert_eq!(get_pos(5, 5), None);
    assert_eq!(get_pos(5, -6), None);
}

#[test]
fn positions_of_a_sequence_of_five() {
    assert_eq!(get_pos(5, 0), Some(0));
    assert_eq!(get_pos(5, 4), Some(4));
    assert_eq!(get_pos(5, -5), Some(0));
    assert_eq!(get_pos(5, -2), Some(3));
    assert_eq!(get_pos(0, 0), None);
    assert_eq!(get_pos(0, -1), None);
    assert_eq!(get_pos(3, i64::MIN), None);
    assert_eq!(get_pos(3, i64::MAX), None);
}

#[test]
fn a_bound_may_lie_at_the_end() {
    assert_eq!(get_bound(5, Some(5), 0), Some(5));
    assert_eq!(get_bound(5, Some(6), 0), None);
    assert_eq!(get_bound(5, Some(-5), 0), Some(0));
    assert_eq!(get_bound(5, Some(-6), 0), None);
    assert_eq!(get_bound(5, None, 0), Some(0));
    assert_eq!(get_bound(5, None, 5), Some(5));
    assert_eq!(get_bound(5, Some(-1), 5), Some(4));
}

#[test]
fn slice_defaults_cover_the_sequence() {
    let r = get_slice_range(5, None, None, None).unwrap();
    assert_eq!((r.start, r.stop, r.step), (0, 5, 1));
}

#[test]
fn slice_with_step_one_is_contiguous() {
    let r = get_slice_range(5, Some(1), Some(-1), Some(1)).unwrap();
    assert_eq!((r.start, r.stop, r.step), (1, 4, 1));
    assert_eq!(slice_positions(&r), vec![1, 2, 3]);
}

#[test]
fn every_second_of_five_selects_zero_two_four() {
    let r = get_slice_range(5, None, None, Some(2)).unwrap();
    assert_eq!(slice_positions(&r), vec![0, 2, 4]);
    let elements = refs(&[10, 11, 12, 13, 14]);
    assert_eq!(get_slice_items(&elements, &r), refs(&[10, 12, 14]));
}

#[test]
fn stepped_slices_stop_before_the_stop() {
    let positions = |start, stop, step| slice_positions(&SliceRange { start, stop, step });
    assert_eq!(positions(0, 4, 2), vec![0, 2]);
    assert_eq!(positions(1, 5, 3), vec![1, 4]);
    assert_eq!(positions(1, 4, 3), vec![1]);
    assert_eq!(positions(0, 5, 7), vec![0]);
    assert_eq!(positions(0, 5, i64::MAX), vec![0]);
    assert_eq!(positions(3, 3, 1), Vec::<usize>::new());
    assert_eq!(positions(4, 2, 1), Vec::<usize>::new());
    assert_eq!(positions(0, 0, 2), Vec::<usize>::new());
}

#[test]
fn negative_step_is_unsupported() {
    let e = get_slice_range(5, None, None, Some(-1)).err().unwrap();
    assert_eq!(e.kind, ExceptionKind::UnsupportedOperation);
    assert_eq!(e.message, "negative step indexing not yet supported");
    let e = get_slice_range(5, Some(99), Some(-99), Some(-3)).err().unwrap();
    assert_eq!(e.kind, ExceptionKind::UnsupportedOperation);
}

#[test]
fn zero_step_is_an_index_error() {
    let e = get_slice_range(5, None, None, Some(0)).err().unwrap();
    assert_eq!(e.kind, ExceptionKind::IndexError);
    assert_eq!(e.message, "slice step cannot be zero");
}

#[test]
fn slice_bounds_outside_the_sequence_are_index_errors() {
    let e = get_slice_range(5, Some(6), None, None).err().unwrap();
    assert_eq!(e.kind, ExceptionKind::IndexError);
    assert_eq!(e.message, "slice index out of range");
    let e = get_slice_range(5, None, Some(-6), None).err().unwrap();
    assert_eq!(e.kind, ExceptionKind::IndexError);
}

fn int_tuple(vm: &mut VirtualMachine, values: &[i64]) -> (ObjRef, Vec<ObjRef>) {
    let elements: Vec<ObjRef> = values.iter().map(|v| vm.ctx.new_int(*v)).collect();
    (vm.ctx.new_tuple(elements.clone()), elements)
}

#[test]
fn tuple_item_by_index() {
    let mut vm = VirtualMachine::new();
    let (t, elements) = int_tuple(&mut vm, &[1, 2, 3, 4, 5]);
    let before = vm.ctx.len();
    let last = vm.ctx.new_int(-1);
    assert_eq!(get_item(&mut vm, t, last), Ok(elements[4]));
    let first = vm.ctx.new_int(0);
    assert_eq!(get_item(&mut vm, t, first), Ok(elements[0]));
    assert_eq!(vm.ctx.len(), before + 2);
}

#[test]
fn tuple_item_out_of_range() {
    let mut vm = VirtualMachine::new();
    let (t, _) = int_tuple(&mut vm, &[1, 2, 3, 4, 5]);
    for bad in [5, -6] {
        let i = vm.ctx.new_int(bad);
        let e = get_item(&mut vm, t, i).unwrap_err();
        assert_eq!(e.kind, ExceptionKind::IndexError);
        assert_eq!(e.message, "Index out of bounds!");
    }
}

#[test]
fn interactive_slice_of_a_tuple_prints_the_rest() {
    // x = (1, 2, 3); x[1:]
    let mut vm = VirtualMachine::new();
    let (x, elements) = int_tuple(&mut vm, &[1, 2, 3]);
    let slice = vm.ctx.new_slice(Some(1), None, None);
    let rest = get_item(&mut vm, x, slice).unwrap();
    assert_eq!(vm.ctx.kind_of(rest), &PyObjectKind::Tuple { elements: vec![elements[1], elements[2]] });
    let shown = vm.to_repr(rest).unwrap();
    assert_eq!(objstr::get_value(&vm.ctx, shown), "(2, 3)");
}

#[test]
fn whole_slice_of_a_tuple_is_an_equal_tuple() {
    let mut vm = VirtualMachine::new();
    let (t, elements) = int_tuple(&mut vm, &[1, 2, 3]);
    let slice = vm.ctx.new_slice(None, None, None);
    let copy = get_item(&mut vm, t, slice).unwrap();
    assert_ne!(copy, t);
    assert_eq!(vm.ctx.kind_of(copy), &PyObjectKind::Tuple { elements });
    let same = vm.call_method(t, "__eq__", vec![copy]).unwrap();
    assert_eq!(vm.ctx.kind_of(same), &PyObjectKind::Boolean { value: true });
}

#[test]
fn slice_of_a_list_is_a_list() {
    let mut vm = VirtualMachine::new();
    let elements: Vec<ObjRef> = [1, 2, 3, 4, 5].iter().map(|v| vm.ctx.new_int(*v)).collect();
    let l = vm.ctx.new_list(elements.clone());
    let slice = vm.ctx.new_slice(None, None, Some(2));
    let picked = get_item(&mut vm, l, slice).unwrap();
    assert_eq!(
        vm.ctx.kind_of(picked),
        &PyObjectKind::List { elements: vec![elements[0], elements[2], elements[4]] }
    );
}

#[test]
fn reversed_slice_of_a_tuple_is_unsupported() {
    let mut vm = VirtualMachine::new();
    let (t, _) = int_tuple(&mut vm, &[1, 2, 3]);
    let slice = vm.ctx.new_slice(None, None, Some(-1));
    let before = vm.ctx.len();
    let e = get_item(&mut vm, t, slice).unwrap_err();
    assert_eq!(e.kind, ExceptionKind::UnsupportedOperation);
    assert_eq!(vm.ctx.len(), before);
}

#[test]
fn subscripting_what_is_no_sequence_is_a_type_error() {
    let mut vm = VirtualMachine::new();
    let n = vm.ctx.new_int(1);
    let e = get_item(&mut vm, n, n).unwrap_err();
    assert_eq!(e.kind, ExceptionKind::TypeError);
    assert_eq!(e.message, "object is not subscriptable");
    let (t, _) = int_tuple(&mut vm, &[1]);
    let s = vm.ctx.new_str("0".to_string());
    let e = get_item(&mut vm, t, s).unwrap_err();
    assert_eq!(e.kind, ExceptionKind::TypeError);
    assert_eq!(e.message, "sequence indices must be integers or slices");
}
