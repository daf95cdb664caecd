//! The attribute protocol and the invocation of native functions.
//!
//! Every operation on values goes through named attributes: an operation
//! looks a special method up on its operand and invokes what it finds. The
//! functions of this module state that protocol twice: as mathematical
//! functions of the context (the `*_outcome` functions), and as executable
//! functions proved to compute them.

use vstd::prelude::*;
use crate::exceptions::{raised, Exception, ExceptionKind, ExceptionView};
use crate::obj::objint::{count_text, decimal};
use crate::obj::objint::{int_eq_outcome, int_eq_value, int_repr_outcome, int_repr_value};
use crate::obj::objobject::{object_eq_outcome, object_eq_value, object_repr_outcome, object_repr_value};
use crate::obj::objstr::{str_eq_outcome, str_eq_value, str_repr_outcome, str_repr_value};
use crate::obj::objtuple::{
    tuple_eq_outcome,
    tuple_eq_value,
    tuple_len_outcome,
    tuple_len_value,
    tuple_repr_outcome,
    tuple_repr_value,
};
use crate::obj::objtype::{is_instance, isinstance};
use crate::pyobject::{
    outcome_view,
    root,
    KindView,
    NativeFn,
    ObjRef,
    PyContext,
    PyFuncArgs,
    PyObjectKind,
    BUILTIN_COUNT,
    INT_TYPE,
    NONE_OBJECT,
    OBJECT_TYPE,
    STR_TYPE,
    TUPLE_TYPE,
};
use crate::stdlib::types::{types_new_class_outcome, types_new_class_value};

verus! {

/// The first binding of `name` in the attribute tables of `order`, searched
/// from the front.
pub open spec fn mro_lookup(ctx: &PyContext, order: Seq<ObjRef>, name: Seq<char>) -> Option<ObjRef>
    decreases order.len(),
{
    if order.len() == 0 {
        None
    } else if ctx.attrs(order[0]).contains_key(name) {
        Some(ctx.attrs(order[0])[name])
    } else {
        mro_lookup(ctx, order.skip(1), name)
    }
}

/// What `name` resolves to on `obj`: the binding in the object's own
/// attribute table if its kind keeps one and the table binds the name, else
/// the first binding along the method resolution order of its type.
pub open spec fn resolve(ctx: &PyContext, obj: ObjRef, name: Seq<char>) -> Option<ObjRef> {
    if ctx.has_own_attrs(obj) && ctx.attrs(obj).contains_key(name) {
        Some(ctx.attrs(obj)[name])
    } else {
        mro_lookup(ctx, ctx.mro_of(ctx.type_ref(obj)), name)
    }
}

/// The message that names the type of an object and the name it lacks.
pub open spec fn missing_attribute_message(class_name: Seq<char>, name: Seq<char>) -> Seq<char> {
    "'"@ + class_name + "' object has no attribute '"@ + name + "'"@
}

/// The failure of an attribute lookup.
pub open spec fn missing_attribute(ctx: &PyContext, obj: ObjRef, name: Seq<char>) -> ExceptionView {
    raised(
        ExceptionKind::AttributeError,
        missing_attribute_message(ctx.name_of_type(ctx.type_ref(obj)), name),
    )
}

/// The result of `get_attribute`.
pub open spec fn get_attribute_outcome(ctx: &PyContext, obj: ObjRef, name: Seq<char>) -> Result<
    ObjRef,
    ExceptionView,
> {
    match resolve(ctx, obj, name) {
        Some(value) => Ok(value),
        None => Err(missing_attribute(ctx, obj, name)),
    }
}

/// The message of a native call with too few positional arguments.
pub open spec fn too_few_message(required: int, given: int) -> Seq<char> {
    "Expected at least "@ + decimal(required) + " arguments (got: "@ + decimal(given) + ")"@
}

/// The message of a native call with too many positional arguments.
pub open spec fn too_many_message(limit: int, given: int) -> Seq<char> {
    "Expected at most "@ + decimal(limit) + " arguments (got: "@ + decimal(given) + ")"@
}

/// The message of a native call with an argument of the wrong type.
pub open spec fn wrong_type_message() -> Seq<char> {
    "argument of incorrect type"@
}

/// The message of invoking an object that cannot be called.
pub open spec fn not_callable_message() -> Seq<char> {
    "object is not callable"@
}

/// The message of invoking, from a native function, a function defined in code.
pub open spec fn code_call_message() -> Seq<char> {
    "a function defined in code cannot be called from a native function"@
}

/// The message of a `__repr__` that yields no string.
pub open spec fn repr_type_message() -> Seq<char> {
    "__repr__ returned non-string"@
}

/// The failure of a native call on the number of its positional arguments,
/// if there is one: fewer than `required`, or more than `required` and
/// `optional` together.
pub open spec fn arity_error(given: int, required: int, optional: int) -> Option<ExceptionView> {
    if given < required {
        Some(raised(ExceptionKind::TypeError, too_few_message(required, given)))
    } else if given > required + optional {
        Some(raised(ExceptionKind::TypeError, too_many_message(required + optional, given)))
    } else {
        None
    }
}

/// The failure of a native call on an argument of the wrong type.
pub open spec fn wrong_type() -> ExceptionView {
    raised(ExceptionKind::TypeError, wrong_type_message())
}

/// The index of the first argument, or zero if there is none.
pub open spec fn receiver_index(args: Seq<ObjRef>) -> nat {
    if args.len() == 0 {
        0
    } else {
        args[0].index as nat
    }
}

/// A bound above the index of every handle of `s`.
pub open spec fn index_bound(s: Seq<ObjRef>) -> nat
    decreases s.len(),
{
    if s.len() == 0 {
        0
    } else {
        let rest = index_bound(s.drop_last());
        let own = (s.last().index + 1) as nat;
        if own > rest {
            own
        } else {
            rest
        }
    }
}

/// What a native function computes from its arguments.
pub open spec fn native_outcome(ctx: &PyContext, function: NativeFn, args: Seq<ObjRef>) -> Result<
    KindView,
    ExceptionView,
>
    decreases receiver_index(args), 3nat, 0nat,
{
    match function {
        NativeFn::ObjectEq => object_eq_outcome(ctx, args),
        NativeFn::ObjectRepr => object_repr_outcome(ctx, args),
        NativeFn::IntEq => int_eq_outcome(ctx, args),
        NativeFn::IntRepr => int_repr_outcome(ctx, args),
        NativeFn::StrEq => str_eq_outcome(ctx, args),
        NativeFn::StrRepr => str_repr_outcome(ctx, args),
        NativeFn::TupleEq => tuple_eq_outcome(ctx, args),
        NativeFn::TupleLen => tuple_len_outcome(ctx, args),
        NativeFn::TupleRepr => tuple_repr_outcome(ctx, args),
        NativeFn::TypesNewClass => types_new_class_outcome(ctx, args),
    }
}

/// What invoking the object `func` on `args` computes. Only native
/// functions can be invoked here.
pub open spec fn invoke_outcome(ctx: &PyContext, func: ObjRef, args: Seq<ObjRef>) -> Result<KindView, ExceptionView>
    decreases receiver_index(args), 4nat, 0nat,
{
    match ctx.kind(func) {
        PyObjectKind::NativeFunction { function } => native_outcome(ctx, function, args),
        PyObjectKind::Function { .. } => Err(raised(ExceptionKind::UnsupportedOperation, code_call_message())),
        _ => Err(raised(ExceptionKind::TypeError, not_callable_message())),
    }
}

/// What calling the method `name` of `obj` computes: the method is looked up
/// on `obj` and invoked with `obj` as its first argument, `rest` after it.
pub open spec fn method_outcome(ctx: &PyContext, obj: ObjRef, name: Seq<char>, rest: Seq<ObjRef>) -> Result<
    KindView,
    ExceptionView,
>
    decreases obj.index, 5nat, 0nat,
{
    match get_attribute_outcome(ctx, obj, name) {
        Err(e) => Err(e),
        Ok(func) => invoke_outcome(ctx, func, seq![obj] + rest),
    }
}

/// The representation of `obj`: what its `__repr__` method computes, which
/// must be a string.
pub open spec fn repr_text(ctx: &PyContext, obj: ObjRef) -> Result<Seq<char>, ExceptionView>
    decreases obj.index, 6nat, 0nat,
{
    match method_outcome(ctx, obj, "__repr__"@, Seq::empty()) {
        Err(e) => Err(e),
        Ok(KindView::String { value }) => Ok(value),
        Ok(_) => Err(raised(ExceptionKind::TypeError, repr_type_message())),
    }
}

/// The index of each handle of a sequence lies below the bound of the
/// sequence.
pub proof fn lemma_index_bound(s: Seq<ObjRef>, k: int)
    requires
        0 <= k < s.len(),
    ensures
        s[k].index < index_bound(s),
    decreases s.len(),
{
    if k < s.len() - 1 {
        lemma_index_bound(s.drop_last(), k);
    }
}

/// A sequence of handles below `limit` has a bound of at most `limit`.
pub proof fn lemma_index_bound_below(s: Seq<ObjRef>, limit: int)
    requires
        crate::pyobject::refs_below(s, limit),
        0 <= limit,
    ensures
        index_bound(s) <= limit,
    decreases s.len(),
{
    if s.len() > 0 {
        assert forall|j: int| 0 <= j < s.drop_last().len() implies (#[trigger] s.drop_last()[j]).index < limit by {
        }
        lemma_index_bound_below(s.drop_last(), limit);
    }
}

/// For a built-in type other than the root, an object is an instance of the
/// type exactly when its kind is the kind the type stands for.
pub proof fn lemma_instance_kind(ctx: &PyContext, obj: ObjRef, builtin: int)
    requires
        ctx.wf(),
        ctx.valid(obj),
        1 <= builtin < NONE_OBJECT,
    ensures
        is_instance(ctx, obj, ObjRef { index: builtin as usize }) <==> crate::pyobject::canonical_type(ctx.kind(obj))
            == builtin,
{
    let cls = ctx.type_ref(obj);
    let target = ObjRef { index: builtin as usize };
    assert(ctx.object_wf(obj.index as int));
    let order = ctx.mro_of(cls);
    assert(order =~= seq![cls, root()]);
    if cls.index != builtin {
        assert forall|k: int| 0 <= k < order.len() implies order[k] != target by {}
    }
}

/// Every object is an instance of the root type.
pub proof fn lemma_instance_of_root(ctx: &PyContext, obj: ObjRef)
    requires
        ctx.wf(),
        ctx.valid(obj),
    ensures
        is_instance(ctx, obj, root()),
{
    let cls = ctx.type_ref(obj);
    assert(ctx.object_wf(obj.index as int));
    let order = ctx.mro_of(cls);
    assert(order =~= seq![cls, root()]);
}

/// First match wins: if the table of `order[k]` binds `name` and no table
/// before it does, the lookup yields that binding.
pub proof fn lemma_first_match_wins(ctx: &PyContext, order: Seq<ObjRef>, name: Seq<char>, k: int)
    requires
        0 <= k < order.len(),
        ctx.attrs(order[k]).contains_key(name),
        forall|j: int| 0 <= j < k ==> !ctx.attrs(#[trigger] order[j]).contains_key(name),
    ensures
        mro_lookup(ctx, order, name) == Some(ctx.attrs(order[k])[name]),
    decreases k,
{
    if k > 0 {
        assert forall|j: int| 0 <= j < k - 1 implies !ctx.attrs(#[trigger] order.skip(1)[j]).contains_key(name) by {
        }
        lemma_first_match_wins(ctx, order.skip(1), name, k - 1);
    }
}

/// If no table along `order` binds `name`, the lookup yields nothing.
pub proof fn lemma_no_match(ctx: &PyContext, order: Seq<ObjRef>, name: Seq<char>)
    requires
        forall|j: int| 0 <= j < order.len() ==> !ctx.attrs(#[trigger] order[j]).contains_key(name),
    ensures
        mro_lookup(ctx, order, name) is None,
    decreases order.len(),
{
    if order.len() > 0 {
        assert forall|j: int| 0 <= j < order.skip(1).len() implies !ctx.attrs(
            #[trigger] order.skip(1)[j],
        ).contains_key(name) by {
        }
        lemma_no_match(ctx, order.skip(1), name);
    }
}

/// Fails when a native function is given fewer positional arguments than it
/// requires, or more than it accepts.
pub fn check_arity(given: usize, required: usize, optional: usize) -> (checked: Result<(), Exception>)
    requires
        required + optional <= usize::MAX,
    ensures
        match checked {
            Ok(_) => arity_error(given as int, required as int, optional as int) is None,
            Err(e) => arity_error(given as int, required as int, optional as int) == Some(e@),
        },
{
    if given < required {
        let mut message = String::from_str("Expected at least ");
        message.append(count_text(required).as_str());
        message.append(" arguments (got: ");
        message.append(count_text(given).as_str());
        message.append(")");
        Err(Exception::new(ExceptionKind::TypeError, message))
    } else if given > required + optional {
        let mut message = String::from_str("Expected at most ");
        message.append(count_text(required + optional).as_str());
        message.append(" arguments (got: ");
        message.append(count_text(given).as_str());
        message.append(")");
        Err(Exception::new(ExceptionKind::TypeError, message))
    } else {
        Ok(())
    }
}

/// Fails unless `obj` is an instance of `typ`.
pub fn check_instance(ctx: &PyContext, obj: ObjRef, typ: ObjRef) -> (checked: Result<(), Exception>)
    requires
        ctx.wf(),
        ctx.valid(obj),
    ensures
        match checked {
            Ok(_) => is_instance(ctx, obj, typ),
            Err(e) => !is_instance(ctx, obj, typ) && e@ == wrong_type(),
        },
{
    if isinstance(ctx, obj, typ) {
        Ok(())
    } else {
        Err(Exception::with_message(ExceptionKind::TypeError, "argument of incorrect type"))
    }
}

/// What `name` resolves to on `obj`, if anything.
pub fn find_attribute(ctx: &PyContext, obj: ObjRef, name: &str) -> (found: Option<ObjRef>)
    requires
        ctx.wf(),
        ctx.valid(obj),
    ensures
        found == resolve(ctx, obj, name@),
        found matches Some(value) ==> ctx.valid(value),
{
    let own = match ctx.kind_of(obj) {
        PyObjectKind::Type { .. } => true,
        PyObjectKind::Module { .. } => true,
        _ => false,
    };
    if own {
        match ctx.get_attr(obj, name) {
            Some(value) => {
                return Some(value);
            },
            None => {},
        }
    }
    let cls = ctx.type_of(obj);
    let ghost order = ctx.mro_of(cls);
    match ctx.get_attr(cls, name) {
        Some(value) => {
            return Some(value);
        },
        None => {},
    }
    match ctx.kind_of(cls) {
        PyObjectKind::Type { mro, .. } => {
            let mut i: usize = 0;
            assert(order.skip(1) =~= mro@);
            assert(mro@.skip(0) =~= mro@);
            while i < mro.len()
                invariant
                    ctx.wf(),
                    i <= mro@.len(),
                    ctx.types_below(mro@, cls.index as int),
                    ctx.valid(cls),
                    resolve(ctx, obj, name@) == mro_lookup(ctx, mro@.skip(i as int), name@),
                decreases mro@.len() - i,
            {
                let base = mro[i];
                assert(mro@.skip(i as int).skip(1) =~= mro@.skip(i + 1));
                match ctx.get_attr(base, name) {
                    Some(value) => {
                        return Some(value);
                    },
                    None => {},
                }
                i = i + 1;
            }
            None
        },
        _ => None,
    }
}

/// The value of the attribute `name` of `obj`.
///
/// The search goes through the object's own attribute table, if its kind
/// keeps one, then through the tables of its type and of each type after it
/// in the method resolution order; the first match wins. It fails with an
/// `AttributeError` that names the type and the attribute exactly when no
/// table binds the name.
pub fn get_attribute(ctx: &PyContext, obj: ObjRef, name: &str) -> (got: Result<ObjRef, Exception>)
    requires
        ctx.wf(),
        ctx.valid(obj),
    ensures
        match got {
            Ok(value) => get_attribute_outcome(ctx, obj, name@) == Ok::<ObjRef, ExceptionView>(value) && ctx.valid(
                value,
            ),
            Err(e) => get_attribute_outcome(ctx, obj, name@) == Err::<ObjRef, ExceptionView>(e@),
        },
{
    match find_attribute(ctx, obj, name) {
        Some(value) => Ok(value),
        None => {
            let cls = ctx.type_of(obj);
            let mut message = String::from_str("'");
            match ctx.kind_of(cls) {
                PyObjectKind::Type { name: class_name, .. } => {
                    message.append(class_name.as_str());
                },
                _ => {},
            }
            message.append("' object has no attribute '");
            message.append(name);
            message.append("'");
            Err(Exception::new(ExceptionKind::AttributeError, message))
        },
    }
}

/// Binds the attribute `name` of `obj` to `value`.
///
/// Succeeds exactly when the kind of `obj` keeps an attribute table of its
/// own; the name then resolves to `value` on `obj`, and nothing else
/// changes. Otherwise it fails with an `AttributeError` and changes nothing.
pub fn set_attribute(ctx: &mut PyContext, obj: ObjRef, name: &str, value: ObjRef) -> (set: Result<(), Exception>)
    requires
        old(ctx).wf(),
        old(ctx).valid(obj),
        old(ctx).valid(value),
    ensures
        final(ctx).wf(),
        final(ctx).objects == old(ctx).objects,
        final(ctx).scopes == old(ctx).scopes,
        final(ctx).codes == old(ctx).codes,
        match set {
            Ok(_) => {
                &&& old(ctx).has_own_attrs(obj)
                &&& final(ctx).attrs(obj) == old(ctx).attrs(obj).insert(name@, value)
                &&& forall|i: int|
                    0 <= i < old(ctx).tables@.len() && i != obj.index ==> #[trigger] final(ctx).tables@[i] == old(
                        ctx,
                    ).tables@[i]
                &&& resolve(final(ctx), obj, name@) == Some(value)
            },
            Err(e) => {
                &&& !old(ctx).has_own_attrs(obj)
                &&& e@ == missing_attribute(old(ctx), obj, name@)
                &&& *final(ctx) == *old(ctx)
            },
        },
{
    let own = match ctx.kind_of(obj) {
        PyObjectKind::Type { .. } => true,
        PyObjectKind::Module { .. } => true,
        _ => false,
    };
    if own {
        ctx.set_attr(obj, name, value);
        Ok(())
    } else {
        let cls = ctx.type_of(obj);
        let mut message = String::from_str("'");
        match ctx.kind_of(cls) {
            PyObjectKind::Type { name: class_name, .. } => {
                message.append(class_name.as_str());
            },
            _ => {},
        }
        message.append("' object has no attribute '");
        message.append(name);
        message.append("'");
        Err(Exception::new(ExceptionKind::AttributeError, message))
    }
}

/// Computes what a native function yields on `args`.
pub fn eval_native(ctx: &PyContext, function: NativeFn, args: &PyFuncArgs) -> (made: Result<PyObjectKind, Exception>)
    requires
        ctx.wf(),
        args.valid_in(ctx),
    ensures
        outcome_view(made) == native_outcome(ctx, function, args.args@),
        made matches Ok(kind) ==> ctx.kind_wf(kind, ctx.objects@.len() as int),
        made matches Err(e) ==> e.cause is None,
    decreases receiver_index(args.args@), 3nat, 0nat,
{
    match function {
        NativeFn::ObjectEq => object_eq_value(ctx, args),
        NativeFn::ObjectRepr => object_repr_value(ctx, args),
        NativeFn::IntEq => int_eq_value(ctx, args),
        NativeFn::IntRepr => int_repr_value(ctx, args),
        NativeFn::StrEq => str_eq_value(ctx, args),
        NativeFn::StrRepr => str_repr_value(ctx, args),
        NativeFn::TupleEq => tuple_eq_value(ctx, args),
        NativeFn::TupleLen => tuple_len_value(ctx, args),
        NativeFn::TupleRepr => tuple_repr_value(ctx, args),
        NativeFn::TypesNewClass => types_new_class_value(ctx, args),
    }
}

/// Computes what invoking `func` on `args` yields.
pub fn eval_invoke(ctx: &PyContext, func: ObjRef, args: &PyFuncArgs) -> (made: Result<PyObjectKind, Exception>)
    requires
        ctx.wf(),
        ctx.valid(func),
        args.valid_in(ctx),
    ensures
        outcome_view(made) == invoke_outcome(ctx, func, args.args@),
        made matches Ok(kind) ==> ctx.kind_wf(kind, ctx.objects@.len() as int),
        made matches Err(e) ==> e.cause is None,
    decreases receiver_index(args.args@), 4nat, 0nat,
{
    match ctx.kind_of(func) {
        PyObjectKind::NativeFunction { function } => eval_native(ctx, *function, args),
        PyObjectKind::Function { .. } => Err(
            Exception::with_message(
                ExceptionKind::UnsupportedOperation,
                "a function defined in code cannot be called from a native function",
            ),
        ),
        _ => Err(Exception::with_message(ExceptionKind::TypeError, "object is not callable")),
    }
}

/// Computes what calling the method `name` of `obj` yields, with `rest` as
/// the arguments after `obj`.
pub fn eval_method(ctx: &PyContext, obj: ObjRef, name: &str, rest: &Vec<ObjRef>) -> (made: Result<
    PyObjectKind,
    Exception,
>)
    requires
        ctx.wf(),
        ctx.valid(obj),
        crate::pyobject::refs_below(rest@, ctx.objects@.len() as int),
    ensures
        outcome_view(made) == method_outcome(ctx, obj, name@, rest@),
        made matches Ok(kind) ==> ctx.kind_wf(kind, ctx.objects@.len() as int),
        made matches Err(e) ==> e.cause is None,
    decreases obj.index, 5nat, 0nat,
{
    match get_attribute(ctx, obj, name) {
        Err(e) => Err(e),
        Ok(func) => {
            let mut all: Vec<ObjRef> = Vec::new();
            all.push(obj);
            let mut i: usize = 0;
            while i < rest.len()
                invariant
                    i <= rest@.len(),
                    all@ == seq![obj] + rest@.take(i as int),
                decreases rest@.len() - i,
            {
                all.push(rest[i]);
                i = i + 1;
            }
            let args = PyFuncArgs::new(all);
            eval_invoke(ctx, func, &args)
        },
    }
}

/// Computes the representation of `obj`.
pub fn eval_repr(ctx: &PyContext, obj: ObjRef) -> (text: Result<String, Exception>)
    requires
        ctx.wf(),
        ctx.valid(obj),
    ensures
        match text {
            Ok(s) => repr_text(ctx, obj) == Ok::<Seq<char>, ExceptionView>(s@),
            Err(e) => repr_text(ctx, obj) == Err::<Seq<char>, ExceptionView>(e@),
        },
        text matches Err(e) ==> e.cause is None,
    decreases obj.index, 6nat, 0nat,
{
    let rest: Vec<ObjRef> = Vec::new();
    match eval_method(ctx, obj, "__repr__", &rest) {
        Err(e) => Err(e),
        Ok(PyObjectKind::String { value }) => Ok(value),
        Ok(_) => Err(Exception::with_message(ExceptionKind::TypeError, "__repr__ returned non-string")),
    }
}

/// The result of an operation that yields an object or raises an exception.
pub type PyResult = Result<ObjRef, Exception>;

/// `result` delivers `outcome`: on success the context has grown by one
/// object, the result, whose content is the outcome's; on failure the
/// exception is the outcome's and the context is as it was.
pub open spec fn delivers(
    before: &PyContext,
    after: &PyContext,
    result: PyResult,
    outcome: Result<KindView, ExceptionView>,
) -> bool {
    match result {
        Ok(r) => {
            &&& after.extends(before)
            &&& after.objects@.len() == before.objects@.len() + 1
            &&& r.index == before.objects@.len()
            &&& outcome == Ok::<KindView, ExceptionView>(after.kind(r)@)
        },
        Err(e) => *after == *before && outcome == Err::<KindView, ExceptionView>(e@),
    }
}

/// Stores a native function and binds it to `name` in the attribute table
/// of `owner`.
pub fn register_native(ctx: &mut PyContext, owner: ObjRef, name: &str, function: NativeFn) -> (func: ObjRef)
    requires
        old(ctx).wf(),
        old(ctx).valid(owner),
    ensures
        final(ctx).wf(),
        final(ctx).extends_objects(old(ctx)),
        final(ctx).objects@.len() == old(ctx).objects@.len() + 1,
        func.index == old(ctx).objects@.len(),
        final(ctx).kind(func) == (PyObjectKind::NativeFunction { function }),
        final(ctx).attrs(func) == Map::<Seq<char>, ObjRef>::empty(),
        final(ctx).attrs(owner) == old(ctx).attrs(owner).insert(name@, func),
        forall|i: int|
            0 <= i < old(ctx).tables@.len() && i != owner.index ==> #[trigger] final(ctx).tables@[i] == old(
                ctx,
            ).tables@[i],
{
    let ghost before = *ctx;
    let func = ctx.new_rustfunc(function);
    ctx.set_attr(owner, name, func);
    proof {
        assert forall|i: int| 0 <= i < before.tables@.len() && i != owner.index implies #[trigger] ctx.tables@[i]
            == before.tables@[i] by {
        }
    }
    func
}

/// The attribute table of `typ` binds `name` to an object that stands for
/// the native function `function`.
pub open spec fn binds_native(ctx: &PyContext, typ: ObjRef, name: Seq<char>, function: NativeFn) -> bool {
    &&& ctx.attrs(typ).contains_key(name)
    &&& ctx.valid(ctx.attrs(typ)[name])
    &&& ctx.kind(ctx.attrs(typ)[name]) == (PyObjectKind::NativeFunction { function })
}

/// The built-in types have the special methods they are created with: no
/// attribute of theirs has been bound to anything else.
pub open spec fn standard(ctx: &PyContext) -> bool {
    &&& binds_native(ctx, root(), "__eq__"@, NativeFn::ObjectEq)
    &&& binds_native(ctx, root(), "__repr__"@, NativeFn::ObjectRepr)
    &&& binds_native(ctx, ObjRef { index: INT_TYPE }, "__eq__"@, NativeFn::IntEq)
    &&& binds_native(ctx, ObjRef { index: INT_TYPE }, "__repr__"@, NativeFn::IntRepr)
    &&& binds_native(ctx, ObjRef { index: STR_TYPE }, "__eq__"@, NativeFn::StrEq)
    &&& binds_native(ctx, ObjRef { index: STR_TYPE }, "__repr__"@, NativeFn::StrRepr)
    &&& binds_native(ctx, ObjRef { index: TUPLE_TYPE }, "__eq__"@, NativeFn::TupleEq)
    &&& binds_native(ctx, ObjRef { index: TUPLE_TYPE }, "__len__"@, NativeFn::TupleLen)
    &&& binds_native(ctx, ObjRef { index: TUPLE_TYPE }, "__repr__"@, NativeFn::TupleRepr)
}

/// The names of the special methods are different names.
pub proof fn lemma_special_names_differ()
    ensures
        "__eq__"@ != "__repr__"@,
        "__eq__"@ != "__len__"@,
        "__len__"@ != "__repr__"@,
{
    reveal_strlit("__eq__");
    reveal_strlit("__repr__");
    reveal_strlit("__len__");
    assert("__eq__"@.len() == 6);
    assert("__len__"@.len() == 7);
}

/// Storing further objects leaves the special methods of the built-in types
/// as they are.
pub proof fn lemma_standard_extends(before: &PyContext, after: &PyContext)
    requires
        before.wf(),
        standard(before),
        after.extends(before),
    ensures
        standard(after),
{
    assert forall|typ: ObjRef, name: Seq<char>, function: NativeFn|
        typ.index < NONE_OBJECT && binds_native(before, typ, name, function) implies binds_native(
        after,
        typ,
        name,
        function,
    ) by {
    }
}

/// What a special method computes on an object whose type binds the name to
/// a native function itself: what that native function computes.
pub proof fn lemma_own_method(ctx: &PyContext, obj: ObjRef, name: Seq<char>, function: NativeFn, rest: Seq<ObjRef>)
    requires
        ctx.wf(),
        ctx.valid(obj),
        !ctx.has_own_attrs(obj),
        binds_native(ctx, ctx.type_ref(obj), name, function),
    ensures
        method_outcome(ctx, obj, name, rest) == native_outcome(ctx, function, seq![obj] + rest),
{
}

/// What a special method computes on an object whose type does not bind the
/// name, when the root binds it to a native function: what that native
/// function computes.
pub proof fn lemma_inherited_method(
    ctx: &PyContext,
    obj: ObjRef,
    name: Seq<char>,
    function: NativeFn,
    rest: Seq<ObjRef>,
)
    requires
        ctx.wf(),
        ctx.valid(obj),
        !ctx.has_own_attrs(obj),
        !ctx.attrs(ctx.type_ref(obj)).contains_key(name),
        binds_native(ctx, root(), name, function),
    ensures
        method_outcome(ctx, obj, name, rest) == native_outcome(ctx, function, seq![obj] + rest),
{
    let cls = ctx.type_ref(obj);
    assert(ctx.object_wf(obj.index as int));
    let order = ctx.mro_of(cls);
    lemma_first_match_wins(ctx, order, name, 1);
}

/// The virtual machine: the one context that every entry point works on.
pub struct VirtualMachine {
    pub ctx: PyContext,
}

impl VirtualMachine {
    /// The invariant of a virtual machine.
    pub open spec fn wf(&self) -> bool {
        self.ctx.wf()
    }

    /// A virtual machine whose context holds the built-in types, the `None`
    /// object and the native functions that are the special methods of the
    /// root, the integers, the strings and the tuples; no other object has
    /// an attribute.
    pub fn new() -> (vm: VirtualMachine)
        ensures
            vm.wf(),
            standard(&vm.ctx),
            vm.ctx.objects@.len() == BUILTIN_COUNT + 9,
            vm.ctx.scopes@.len() == 0,
            vm.ctx.codes@.len() == 0,
            forall|i: int|
                0 <= i < vm.ctx.objects@.len() && i != OBJECT_TYPE && i != INT_TYPE && i != STR_TYPE && i
                    != TUPLE_TYPE ==> (#[trigger] vm.ctx.tables@[i])@ == Map::<Seq<char>, ObjRef>::empty(),
    {
        let mut ctx = PyContext::new();
        crate::obj::objobject::init(&mut ctx);
        crate::obj::objint::init(&mut ctx);
        crate::obj::objstr::init(&mut ctx);
        crate::obj::objtuple::init(&mut ctx);
        proof {
            lemma_special_names_differ();
        }
        VirtualMachine { ctx }
    }

    /// The context of this virtual machine.
    pub fn context(&self) -> (ctx: &PyContext)
        ensures
            *ctx == self.ctx,
    {
        &self.ctx
    }

    /// The one `None` object.
    pub fn get_none(&self) -> (r: ObjRef)
        ensures
            r.index == NONE_OBJECT,
    {
        self.ctx.none()
    }

    /// A new string object.
    pub fn new_str(&mut self, value: String) -> (r: ObjRef)
        requires
            old(self).wf(),
        ensures
            final(self).wf(),
            final(self).ctx.extends(&old(self).ctx),
            r.index == old(self).ctx.objects@.len(),
            final(self).ctx.objects@.len() == old(self).ctx.objects@.len() + 1,
            final(self).ctx.attrs(r) == Map::<Seq<char>, ObjRef>::empty(),
            final(self).ctx.kind(r) == (PyObjectKind::String { value }),
    {
        self.ctx.new_str(value)
    }

    /// Stores a computed value as a new object, or passes the exception on.
    pub fn realize(&mut self, made: Result<PyObjectKind, Exception>) -> (result: PyResult)
        requires
            old(self).wf(),
            made matches Ok(kind) ==> old(self).ctx.kind_wf(kind, old(self).ctx.objects@.len() as int),
        ensures
            final(self).wf(),
            delivers(&old(self).ctx, &final(self).ctx, result, outcome_view(made)),
    {
        match made {
            Ok(kind) => Ok(self.ctx.store(kind)),
            Err(e) => Err(e),
        }
    }

    /// Invokes a callable object on packed arguments.
    pub fn invoke(&mut self, func: ObjRef, args: PyFuncArgs) -> (result: PyResult)
        requires
            old(self).wf(),
            old(self).ctx.valid(func),
            args.valid_in(&old(self).ctx),
        ensures
            final(self).wf(),
            delivers(&old(self).ctx, &final(self).ctx, result, invoke_outcome(&old(self).ctx, func, args.args@)),
    {
        let made = eval_invoke(&self.ctx, func, &args);
        self.realize(made)
    }

    /// Calls the method `name` of `obj` with the arguments `args` after
    /// `obj` itself.
    pub fn call_method(&mut self, obj: ObjRef, name: &str, args: Vec<ObjRef>) -> (result: PyResult)
        requires
            old(self).wf(),
            old(self).ctx.valid(obj),
            crate::pyobject::refs_below(args@, old(self).ctx.objects@.len() as int),
        ensures
            final(self).wf(),
            delivers(&old(self).ctx, &final(self).ctx, result, method_outcome(&old(self).ctx, obj, name@, args@)),
    {
        let made = eval_method(&self.ctx, obj, name, &args);
        self.realize(made)
    }

    /// The representation of `obj`, as a new string object.
    pub fn to_repr(&mut self, obj: ObjRef) -> (result: PyResult)
        requires
            old(self).wf(),
            old(self).ctx.valid(obj),
        ensures
            final(self).wf(),
            match result {
                Ok(r) => {
                    &&& final(self).ctx.extends(&old(self).ctx)
                    &&& final(self).ctx.objects@.len() == old(self).ctx.objects@.len() + 1
                    &&& r.index == old(self).ctx.objects@.len()
                    &&& final(self).ctx.kind(r) is String
                    &&& repr_text(&old(self).ctx, obj) == Ok::<Seq<char>, ExceptionView>(
                        final(self).ctx.kind(r)->String_value@,
                    )
                },
                Err(e) => final(self).ctx == old(self).ctx && repr_text(&old(self).ctx, obj) == Err::<
                    Seq<char>,
                    ExceptionView,
                >(e@),
            },
    {
        match eval_repr(&self.ctx, obj) {
            Ok(text) => Ok(self.ctx.new_str(text)),
            Err(e) => Err(e),
        }
    }

    /// The value of the attribute `name` of `obj`.
    pub fn get_attribute(&self, obj: ObjRef, name: &str) -> (got: PyResult)
        requires
            self.wf(),
            self.ctx.valid(obj),
        ensures
            match got {
                Ok(value) => get_attribute_outcome(&self.ctx, obj, name@) == Ok::<ObjRef, ExceptionView>(value)
                    && self.ctx.valid(value),
                Err(e) => get_attribute_outcome(&self.ctx, obj, name@) == Err::<ObjRef, ExceptionView>(e@),
            },
    {
        get_attribute(&self.ctx, obj, name)
    }
}

} // verus!
