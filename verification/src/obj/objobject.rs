//! The root type: what every object can do unless its type says otherwise.

use vstd::prelude::*;
use crate::exceptions::{Exception, ExceptionView};
use crate::pyobject::{
    KindView,
    NativeFn,
    ObjRef,
    PyContext,
    PyFuncArgs,
    PyObjectKind,
    outcome_view,
    root,
    OBJECT_TYPE,
};
use crate::vm::{arity_error, check_arity, register_native};

verus! {

/// The representation of an object whose type defines none.
pub open spec fn default_repr(class_name: Seq<char>) -> Seq<char> {
    "<"@ + class_name + " object>"@
}

/// Equality by default is identity: two arguments are equal when they are
/// the same object.
pub open spec fn object_eq_outcome(ctx: &PyContext, args: Seq<ObjRef>) -> Result<KindView, ExceptionView> {
    match arity_error(args.len() as int, 2, 0) {
        Some(e) => Err(e),
        None => Ok(KindView::Boolean { value: args[0] == args[1] }),
    }
}

/// The representation by default names the type of the object.
pub open spec fn object_repr_outcome(ctx: &PyContext, args: Seq<ObjRef>) -> Result<KindView, ExceptionView> {
    match arity_error(args.len() as int, 1, 0) {
        Some(e) => Err(e),
        None => Ok(KindView::String { value: default_repr(ctx.name_of_type(ctx.type_ref(args[0]))) }),
    }
}

/// Computes what `__eq__` of the root type yields.
pub fn object_eq_value(ctx: &PyContext, args: &PyFuncArgs) -> (made: Result<PyObjectKind, Exception>)
    requires
        ctx.wf(),
        args.valid_in(ctx),
    ensures
        outcome_view(made) == object_eq_outcome(ctx, args.args@),
        made matches Ok(kind) ==> ctx.kind_wf(kind, ctx.objects@.len() as int),
{
    match check_arity(args.args.len(), 2, 0) {
        Err(e) => Err(e),
        Ok(_) => Ok(PyObjectKind::Boolean { value: args.args[0] == args.args[1] }),
    }
}

/// Computes what `__repr__` of the root type yields.
pub fn object_repr_value(ctx: &PyContext, args: &PyFuncArgs) -> (made: Result<PyObjectKind, Exception>)
    requires
        ctx.wf(),
        args.valid_in(ctx),
    ensures
        outcome_view(made) == object_repr_outcome(ctx, args.args@),
        made matches Ok(kind) ==> ctx.kind_wf(kind, ctx.objects@.len() as int),
{
    match check_arity(args.args.len(), 1, 0) {
        Err(e) => Err(e),
        Ok(_) => {
            let cls = ctx.type_of(args.args[0]);
            let mut text = String::from_str("<");
            match ctx.kind_of(cls) {
                PyObjectKind::Type { name, .. } => {
                    text.append(name.as_str());
                },
                _ => {},
            }
            text.append(" object>");
            Ok(PyObjectKind::String { value: text })
        },
    }
}

/// Gives the root type its special methods: `__eq__` and `__repr__`.
pub fn init(ctx: &mut PyContext)
    requires
        old(ctx).wf(),
    ensures
        final(ctx).wf(),
        final(ctx).extends_objects(old(ctx)),
        final(ctx).objects@.len() == old(ctx).objects@.len() + 2,
        final(ctx).kind(old(ctx).upcoming(0)) == (PyObjectKind::NativeFunction {
            function: NativeFn::ObjectEq,
        }),
        final(ctx).kind(old(ctx).upcoming(1)) == (PyObjectKind::NativeFunction {
            function: NativeFn::ObjectRepr,
        }),
        final(ctx).attrs(root()) == old(ctx).attrs(root()).insert(
            "__eq__"@,
            old(ctx).upcoming(0),
        ).insert("__repr__"@, old(ctx).upcoming(1)),
        forall|i: int|
            0 <= i < old(ctx).tables@.len() && i != OBJECT_TYPE ==> #[trigger] final(ctx).tables@[i] == old(
                ctx,
            ).tables@[i],        forall|i: int|
            old(ctx).tables@.len() <= i < final(ctx).tables@.len() ==> (#[trigger] final(ctx).tables@[i])@ == Map::<
                Seq<char>,
                ObjRef,
            >::empty(),
{
    let object_type = ctx.object();
    register_native(ctx, object_type, "__eq__", NativeFn::ObjectEq);
    register_native(ctx, object_type, "__repr__", NativeFn::ObjectRepr);
}

} // verus!
