use rustpython_vm::attrs::AttrTable;
use rustpython_vm::exceptions::ExceptionKind;
use rustpython_vm::function::bind_arguments;
use rustpython_vm::attrs::Attribute;
use rustpython_vm::pyobject::{ObjRef, PyContext, PyFuncArgs};
use rustpython_vm::scope::{find_name, load_name, store_name};

fn r(index: usize) -> ObjRef {
    ObjRef { index }
}

#[test]
fn attribute_tables_bind_each_name_once() {
    let mut t = AttrTable::new();
    assert_eq!(t.len(), 0);
    assert_eq!(t.get("a"), None);
    t.insert("a".to_string(), r(1));
    t.insert("b".to_string(), r(2));
    assert_eq!(t.get("a"), Some(r(1)));
    assert_eq!(t.get("b"), Some(r(2)));
    t.insert("a".to_string(), r(3));
    assert_eq!(t.len(), 2);
    assert_eq!(t.get("a"), Some(r(3)));
    assert_eq!(t.get("b"), Some(r(2)));
    assert_eq!(t.get(""), None);
}

#[test]
fn names_are_found_along_the_chain() {
    let mut ctx = PyContext::new();
    let one = ctx.new_int(1);
    let two = ctx.new_int(2);
    let outer = ctx.new_scope(None);
    let middle = ctx.new_scope(Some(outer));
    let inner = ctx.new_scope(Some(middle));
    store_name(&mut ctx, outer, "x", one);
    assert_eq!(find_name(&ctx, inner, "x"), Some(one));
    assert_eq!(find_name(&ctx, middle, "x"), Some(one));
    assert_eq!(load_name(&ctx, outer, "x"), Ok(one));
    store_name(&mut ctx, middle, "x", two);
    assert_eq!(find_name(&ctx, inner, "x"), Some(two));
    assert_eq!(find_name(&ctx, outer, "x"), Some(one));
}

#[test]
fn inner_bindings_do_not_leak_outward() {
    let mut ctx = PyContext::new();
    let one = ctx.new_int(1);
    let outer = ctx.new_scope(None);
    let inner = ctx.new_scope(Some(outer));
    let sibling = ctx.new_scope(Some(outer));
    store_name(&mut ctx, inner, "y", one);
    assert_eq!(find_name(&ctx, inner, "y"), Some(one));
    assert_eq!(find_name(&ctx, outer, "y"), None);
    assert_eq!(find_name(&ctx, sibling, "y"), None);
}

#[test]
fn an_unbound_name_is_an_attribute_error() {
    let mut ctx = PyContext::new();
    let outer = ctx.new_scope(None);
    let inner = ctx.new_scope(Some(outer));
    let e = load_name(&ctx, inner, "ghost").unwrap_err();
    assert_eq!(e.kind, ExceptionKind::AttributeError);
    assert_eq!(e.message, "name 'ghost' is not defined");
}

#[test]
fn a_binding_is_seen_by_scopes_made_earlier_and_later() {
    // Closures see the bindings of the enclosing scope at the time of the lookup.
    let mut ctx = PyContext::new();
    let one = ctx.new_int(1);
    let two = ctx.new_int(2);
    let outer = ctx.new_scope(None);
    let early = ctx.new_scope(Some(outer));
    store_name(&mut ctx, outer, "x", one);
    let late = ctx.new_scope(Some(outer));
    assert_eq!(find_name(&ctx, early, "x"), Some(one));
    assert_eq!(find_name(&ctx, late, "x"), Some(one));
    store_name(&mut ctx, outer, "x", two);
    assert_eq!(find_name(&ctx, early, "x"), Some(two));
}

fn params(names: &[&str]) -> Vec<String> {
    names.iter().map(|n| n.to_string()).collect()
}

fn call(positional: &[usize], keywords: &[(&str, usize)]) -> PyFuncArgs {
    PyFuncArgs {
        args: positional.iter().map(|i| r(*i)).collect(),
        kwargs: keywords.iter().map(|(n, i)| Attribute { name: n.to_string(), value: r(*i) }).collect(),
    }
}

fn bound(names: &[&str], positional: &[usize], keywords: &[(&str, usize)]) -> Result<Vec<Option<ObjRef>>, String> {
    match bind_arguments("f", &params(names), &call(positional, keywords)) {
        Ok(table) => {
            assert_eq!(table.len(), names.len());
            Ok(names.iter().map(|n| table.get(n)).collect())
        }
        Err(e) => {
            assert_eq!(e.kind, ExceptionKind::TypeError);
            Err(e.message)
        }
    }
}

#[test]
fn positional_arguments_bind_in_order() {
    assert_eq!(bound(&["a", "b"], &[1, 2], &[]), Ok(vec![Some(r(1)), Some(r(2))]));
    assert_eq!(bound(&[], &[], &[]), Ok(vec![]));
}

#[test]
fn keyword_arguments_bind_by_name() {
    assert_eq!(bound(&["a", "b"], &[], &[("b", 2), ("a", 1)]), Ok(vec![Some(r(1)), Some(r(2))]));
    assert_eq!(bound(&["a", "b", "c"], &[7], &[("c", 9), ("b", 8)]), Ok(vec![Some(r(7)), Some(r(8)), Some(r(9))]));
}

#[test]
fn too_many_positional_arguments() {
    assert_eq!(
        bound(&["a"], &[1, 2], &[]),
        Err("f() takes 1 positional arguments but 2 were given".to_string())
    );
    assert_eq!(bound(&[], &[1], &[]), Err("f() takes 0 positional arguments but 1 were given".to_string()));
}

#[test]
fn missing_arguments_name_the_first_missing_parameter() {
    assert_eq!(bound(&["a", "b", "c"], &[1], &[]), Err("f() missing required argument: 'b'".to_string()));
    assert_eq!(bound(&["a", "b", "c"], &[1], &[("b", 2)]), Err("f() missing required argument: 'c'".to_string()));
    assert_eq!(bound(&["a"], &[], &[]), Err("f() missing required argument: 'a'".to_string()));
}

#[test]
fn unexpected_and_repeated_keywords() {
    assert_eq!(
        bound(&["a"], &[1], &[("z", 2)]),
        Err("f() got an unexpected keyword argument 'z'".to_string())
    );
    assert_eq!(
        bound(&["a", "b"], &[1, 2], &[("a", 3)]),
        Err("f() got multiple values for argument 'a'".to_string())
    );
    assert_eq!(
        bound(&["a", "b"], &[], &[("a", 1), ("a", 2)]),
        Err("f() got multiple values for argument 'a'".to_string())
    );
    // The first keyword that fails decides.
    assert_eq!(
        bound(&["a"], &[], &[("z", 1), ("a", 2), ("a", 3)]),
        Err("f() got an unexpected keyword argument 'z'".to_string())
    );
}
